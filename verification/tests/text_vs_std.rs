use lanlink::text::{chars_of, decimal_string, last_segment_start, split_ranges};

fn all_strings(alphabet: &[&str], max_len: usize) -> Vec<String> {
    let mut out = vec![String::new()];
    let mut frontier = vec![String::new()];
    for _ in 0..max_len {
        let mut next = Vec::new();
        for s in &frontier {
            for a in alphabet {
                next.push(format!("{}{}", s, a));
            }
        }
        out.extend(next.iter().cloned());
        frontier = next;
    }
    out
}

#[test]
fn split_agrees_with_str_split() {
    for text in all_strings(&[";", "a", "ß"], 7) {
        let m = chars_of(&text);
        let got: Vec<String> = split_ranges(&m, ';')
            .iter()
            .map(|&(a, b)| m[a..b].iter().collect())
            .collect();
        let want: Vec<String> = text.split(';').map(|p| p.to_string()).collect();
        assert_eq!(got, want, "on {:?}", text);
    }
}

#[test]
fn last_piece_agrees_with_str_split() {
    let sep = chars_of(" - ");
    for text in all_strings(&[" ", "-", "x"], 8) {
        let m = chars_of(&text);
        let start = last_segment_start(&m, &sep);
        let got: String = m[start..].iter().collect();
        assert_eq!(Some(got.as_str()), text.split(" - ").last(), "on {:?}", text);
    }
}

#[test]
fn decimal_agrees_with_to_string() {
    let mut n: u128 = 1;
    while n < u128::MAX / 3 {
        for k in [n - 1, n, n + 1, n * 2 + 7] {
            assert_eq!(decimal_string(k), k.to_string());
        }
        n *= 3;
    }
    assert_eq!(decimal_string(u128::MAX), u128::MAX.to_string());
}
