use kube_ssm::text::{split_str, trim_str};

fn std_split(s: &str, sep: char) -> Vec<String> {
    s.split(sep).map(|part| part.to_string()).collect()
}

#[test]
fn split_gives_the_segments_between_dots() {
    assert_eq!(
        split_str("eks.us-west-2.amazonaws.com", '.'),
        vec!["eks", "us-west-2", "amazonaws", "com"]
    );
}

#[test]
fn split_without_separator_gives_the_whole() {
    assert_eq!(split_str("localhost", '.'), vec!["localhost"]);
}

#[test]
fn split_of_the_empty_text_gives_one_empty_segment() {
    assert_eq!(split_str("", '.'), vec![""]);
}

#[test]
fn split_keeps_empty_segments() {
    assert_eq!(split_str(".a..b.", '.'), vec!["", "a", "", "b", ""]);
}

#[test]
fn split_agrees_with_the_standard_library() {
    let samples = [
        "",
        ".",
        "..",
        "a",
        "a.b",
        "https://ABCDEF.gr7.eu-central-1.eks.amazonaws.com",
        "trailing.",
        ".leading",
        "d\u{00e9}j\u{00e0}.vu.\u{4e2d}\u{6587}",
    ];
    for sample in samples {
        assert_eq!(split_str(sample, '.'), std_split(sample, '.'), "on {:?}", sample);
    }
}

#[test]
fn split_segments_join_back() {
    let sample = "a.b..c.";
    assert_eq!(split_str(sample, '.').join("."), sample);
}

#[test]
fn trim_removes_surrounding_whitespace() {
    assert_eq!(trim_str("  staging \n"), "staging");
}

#[test]
fn trim_keeps_inner_whitespace() {
    assert_eq!(trim_str("\t my node \r\n"), "my node");
}

#[test]
fn trim_of_whitespace_is_empty() {
    assert_eq!(trim_str(" \t\n"), "");
    assert_eq!(trim_str(""), "");
}

#[test]
fn trim_leaves_clean_text_alone() {
    assert_eq!(trim_str("ip-10-0-1-5.ec2.internal"), "ip-10-0-1-5.ec2.internal");
}

#[test]
fn trim_knows_unicode_whitespace() {
    assert_eq!(trim_str("\u{00a0}\u{2003}prod\u{3000}"), "prod");
}

#[test]
fn trim_agrees_with_the_standard_library() {
    let samples = [
        "",
        " ",
        "x",
        " x",
        "x ",
        "  x  y  ",
        "\n\nstaging\n",
        "\u{2028}dev\u{0085}",
        "\u{200b}not-space\u{200b}",
    ];
    for sample in samples {
        assert_eq!(trim_str(sample), sample.trim(), "on {:?}", sample);
    }
}
