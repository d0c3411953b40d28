use nnn::command::{check, CommandConfig};
use nnn::strings::{parse_u16, split, trim};

#[test]
fn trim_agrees_with_std() {
    for s in ["", " ", "a", "  a b  ", "\t\n x \u{a0}", "\u{3000}y\u{2009}", "\u{200b}z", "x\u{85}"] {
        assert_eq!(trim(s), s.trim(), "trim({s:?})");
    }
}

#[test]
fn parse_u16_agrees_with_std() {
    for s in ["", "+", "-", "0", "+0", "-0", "00080", "65535", "65536", "99999999999", "1a", " 1", "+-1", "٣"] {
        assert_eq!(parse_u16(s), s.parse::<u16>().ok(), "parse({s:?})");
    }
}

#[test]
fn split_agrees_with_std() {
    for s in ["", ",", "a", "a,b", ",a,,b,", "é,ü"] {
        let want: Vec<String> = s.split(',').map(String::from).collect();
        assert_eq!(split(s, ','), want, "split({s:?})");
    }
}

#[test]
fn base_name_agrees_with_std() {
    let paths = [
        "ls", "/bin/ls", "/usr/bin/ls/", "./ls", "ls/.", "a//b", "/", ".", "..", "a/..", "./", "",
        "x/./y", "/./y/./",
    ];
    for p in paths {
        let want = std::path::Path::new(p)
            .file_name()
            .and_then(|s| s.to_str())
            .unwrap_or(p)
            .to_string();
        let cfg = CommandConfig { allow: vec![], deny: vec![want.clone()], default_denied: Some(false) };
        assert!(check(&[p.to_string()], &cfg, false).is_err(), "base name of {p:?} should be {want:?}");
        if want != p {
            // the rule matches the base name only, not the whole path
            let cfg = CommandConfig { allow: vec![want.clone()], deny: vec![p.to_string()], default_denied: Some(false) };
            assert!(check(&[p.to_string()], &cfg, false).is_ok());
        }
    }
}
