use lanlink::lan::parse_java_announcement;
use regex::Regex;

fn expected(re: &Regex, msg: &str) -> Option<(String, String)> {
    let caps = re.captures(msg)?;
    let motd_raw = caps.get(1).map_or("", |m| m.as_str()).to_string();
    let motd = motd_raw.split(" - ").last().unwrap_or(&motd_raw).to_string();
    let port = caps.get(2).map_or("", |m| m.as_str()).to_string();
    Some((motd, port))
}

#[test]
fn announcement_reader_agrees_with_regex() {
    let re = Regex::new(r"\[MOTD\](.*?)\[/MOTD\]\[AD\](.*?)\[/AD\]").unwrap();
    let tokens = ["[MOTD]", "[/MOTD]", "[AD]", "[/AD]", "x", " - ", "\n", "é", "-"];
    let mut count = 0;
    let mut stack: Vec<Vec<usize>> = vec![vec![]];
    while let Some(seq) = stack.pop() {
        let msg: String = seq.iter().map(|&i| tokens[i]).collect();
        let got = parse_java_announcement(msg.as_bytes(), "ip".to_string()).map(|s| (s.motd, s.port));
        assert_eq!(got, expected(&re, &msg), "on {:?}", msg);
        count += 1;
        if seq.len() < 6 {
            for i in 0..tokens.len() {
                let mut next = seq.clone();
                next.push(i);
                stack.push(next);
            }
        }
    }
    assert!(count > 500_000);
}
