use microdot_core::labels::NodeInfo;
use microdot_core::number::Floats;
use microdot_core::time::Time;
use microdot_core::variable::Variable;
use microdot_core::Label;
use regex::Regex;
use std::collections::BTreeSet;

struct Ieee;

impl Floats for Ieee {
    fn parse(&self, text: &str) -> Option<u64> {
        text.parse::<f64>().ok().map(f64::to_bits)
    }

    fn sum(&self, a: u64, b: u64) -> u64 {
        (f64::from_bits(a) + f64::from_bits(b)).to_bits()
    }

    fn show(&self, bits: u64) -> String {
        f64::from_bits(bits).to_string()
    }
}

const LABELS: [&str; 24] = [
    "",
    "plain text",
    "a #hashtag at the #end",
    "a #hashtag in the middle and a #SG_SUBGRAPH",
    "positive choice $choice=true",
    "#a#b ##c #-d #_e #9 #f-1_2 #g.h",
    "$a=1$b=2 $c= $=d $e=f=g $h-i_j=k $9=l",
    "x $a=$b=1 y",
    "x $v=#tag y #other",
    "tabs\t#t\t$x=1\tand\u{a0}no-break\u{a0}$y=2\u{2003}#u",
    "line one\n#two $z=3\r\nthree",
    "  padded  #p  ",
    "#only",
    "$only=1",
    "#SG_b #SG_a #SG_",
    "price $ 5 and # 1",
    "caf\u{e9} #caf\u{e9} $caf\u{e9}=1 $n=caf\u{e9}",
    "#a #a #a $q=1 $q=1",
    "end with variable #t $w=1",
    "end with tags $w=1 #t #u",
    "$x=1#notatag",
    "#tag$x=1",
    "a\u{3000}#wide\u{3000}$k=v\u{3000}",
    "$$$a=1 ###b",
];

#[test]
fn hashtags_are_what_the_pattern_matches() {
    let rx = Regex::new("#[A-Za-z][A-Za-z0-9_-]*").unwrap();
    for label in LABELS {
        let expected: BTreeSet<String> = rx
            .find_iter(label)
            .map(|m| m.as_str().to_string())
            .collect();
        let info = NodeInfo::parse(&Label::new(label), &Ieee);
        let mut found: BTreeSet<String> = info.tags.iter().map(|t| t.to_string()).collect();
        for tag in &info.tags {
            assert!(!tag.as_str().starts_with("#SG_"), "{:?}", label);
        }
        if let Some(tag) = &info.subgraph {
            assert!(tag.as_str().starts_with("#SG_"), "{:?}", label);
            found.insert(tag.to_string());
        }
        let expected_plain: BTreeSet<&String> = expected
            .iter()
            .filter(|t| !t.starts_with("#SG_"))
            .collect();
        let found_plain: BTreeSet<&String> =
            found.iter().filter(|t| !t.starts_with("#SG_")).collect();
        assert_eq!(found_plain, expected_plain, "{:?}", label);
        let first_subgraph = expected.iter().find(|t| t.starts_with("#SG_"));
        assert_eq!(
            info.subgraph.as_ref().map(|t| t.to_string()),
            first_subgraph.cloned(),
            "{:?}",
            label
        );
        let sorted: Vec<String> = info.tags.iter().map(|t| t.to_string()).collect();
        let mut resorted = sorted.clone();
        resorted.sort();
        assert_eq!(sorted, resorted, "{:?}", label);
    }
}

#[test]
fn variables_are_what_the_pattern_matches() {
    let rx = Regex::new("\\$([A-Za-z][A-Za-z0-9_-]*)=(\\S+)").unwrap();
    for label in LABELS {
        let expected: Vec<(String, String)> = rx
            .captures_iter(label)
            .map(|c| (c[1].to_string(), c[2].to_string()))
            .collect();
        let written = NodeInfo::variable_texts(&Label::new(label));
        let values: Vec<String> = expected.iter().map(|p| p.1.clone()).collect();
        assert_eq!(written, values, "{:?}", label);
        let first = Variable::parse(label, &Ieee);
        assert_eq!(
            first.map(|v| v.name),
            expected.first().map(|p| p.0.clone()),
            "{:?}",
            label
        );
        let without = rx.replace_all(label, "").to_string();
        let info = NodeInfo::parse(&Label::new(label), &Ieee);
        assert!(
            without.trim().starts_with(info.label.as_str()),
            "{:?}: {:?} against {:?}",
            label,
            info.label,
            without
        );
    }
}

#[test]
fn the_shown_text_is_trimmed_as_the_standard_library_trims() {
    let rx = Regex::new("\\$([A-Za-z][A-Za-z0-9_-]*)=(\\S+)").unwrap();
    let tag = Regex::new("#[A-Za-z][A-Za-z0-9_-]*$").unwrap();
    for label in LABELS {
        let mut expected = rx.replace_all(label, "").trim().to_string();
        while let Some(found) = tag.find(&expected) {
            expected = expected[..found.start()].trim().to_string();
        }
        let info = NodeInfo::parse(&Label::new(label), &Ieee);
        assert_eq!(info.label, expected, "{:?}", label);
    }
}

#[test]
fn durations_are_what_the_anchored_pattern_matches() {
    let rx = Regex::new("^([0-9]+)(m|h|d|M|y)$").unwrap();
    let texts = [
        "1m", "12h", "0d", "007M", "3y", "4 d", "d", "4", "4dd", "-4d", "4D", "4.5h", "1e3m",
        "2147483647y", "2147483648y", "99999999999999999999m", "\u{664}d", "",
    ];
    for text in texts {
        let expected = rx
            .captures(text)
            .and_then(|c| c[1].parse::<i32>().ok().map(|n| (n, c[2].to_string())));
        let found = Time::parse(text).map(|t| match t {
            Time::Minute(n) => (n, "m"),
            Time::Hour(n) => (n, "h"),
            Time::Day(n) => (n, "d"),
            Time::Month(n) => (n, "M"),
            Time::Year(n) => (n, "y"),
        });
        assert_eq!(
            found.map(|(n, u)| (n, u.to_string())),
            expected.map(|(n, u)| (n as i64, u)),
            "{:?}",
            text
        );
    }
}
