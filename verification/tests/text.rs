use maika::order::{lex_less, same_text, sorted_distinct};
use maika::text::{chars_of, join, split, string_of, text_eq};

fn v(s: &str) -> Vec<char> {
    s.chars().collect()
}

fn pieces(s: &str, sep: &str) -> Vec<String> {
    split(&v(s), &v(sep)).iter().map(|p| p.iter().collect()).collect()
}

fn strings(xs: &[&str]) -> Vec<String> {
    xs.iter().map(|s| s.to_string()).collect()
}

#[test]
fn joins_arguments() {
    assert_eq!(join(&strings(&["a", "b", "c"]), " "), "a b c");
    assert_eq!(join(&strings(&[]), " "), "");
    assert_eq!(join(&strings(&["solo"]), ", "), "solo");
    assert_eq!(join(&strings(&["x", "", "y"]), "-"), "x--y");
}

#[test]
fn splits_at_separator() {
    assert_eq!(pieces("a, b, c", ", "), vec!["a", "b", "c"]);
    assert_eq!(pieces("", " "), vec![""]);
    assert_eq!(pieces("a  b", " "), vec!["a", "", "b"]);
    assert_eq!(pieces("a, ", ", "), vec!["a", ""]);
    assert_eq!(pieces(",,, ,", ", "), vec![",,", ","]);
}

#[test]
fn splits_as_std_does() {
    let samples = ["", " ", "a", "a b", " a b ", "a, b", "a,, b, ", ", , ,", "tea, coffee or water"];
    for s in samples {
        for sep in [" ", ", "] {
            let ours = pieces(s, sep);
            let std: Vec<String> = s.split(sep).map(|p| p.to_string()).collect();
            assert_eq!(ours, std, "{:?} at {:?}", s, sep);
        }
    }
}

#[test]
fn split_then_join_gives_back_the_text() {
    for s in ["", "a, b", "a,  b, , c", "no separator"] {
        let parts = pieces(s, ", ");
        assert_eq!(join(&parts, ", "), s);
    }
}

#[test]
fn compares_like_str() {
    let words = ["", "a", "ab", "b", "B", "é", "aa", "a b", "Zebra"];
    for x in words {
        for y in words {
            assert_eq!(lex_less(&v(x), &v(y)), x < y, "{:?} < {:?}", x, y);
            assert_eq!(same_text(&v(x), &v(y)), x == y);
        }
    }
}

#[test]
fn sorts_and_removes_repeats() {
    let items = vec![v("pear"), v("apple"), v("pear"), v("fig"), v("apple")];
    let sorted: Vec<String> = sorted_distinct(items).iter().map(|p| p.iter().collect()).collect();
    assert_eq!(sorted, vec!["apple", "fig", "pear"]);
}

#[test]
fn sorts_as_sort_and_dedup_do() {
    let words = vec!["b", "a", "c", "a", "", "ab", "b", "Z", "z", ""];
    let mut std_sorted = words.clone();
    std_sorted.sort();
    std_sorted.dedup();
    let ours: Vec<String> = sorted_distinct(words.iter().map(|w| v(w)).collect())
        .iter()
        .map(|p| p.iter().collect())
        .collect();
    assert_eq!(ours, std_sorted);
}

#[test]
fn converts_between_strings_and_characters() {
    assert_eq!(chars_of("héllo"), vec!['h', 'é', 'l', 'l', 'o']);
    assert_eq!(string_of(&vec!['o', 'k']), "ok");
    assert!(text_eq("same", "same"));
    assert!(!text_eq("same", "Same"));
}

#[test]
fn words_joined_with_spaces_split_back() {
    let words = strings(&["alpha", "beta", "", "gamma"]);
    let joined = join(&words, " ");
    assert_eq!(pieces(&joined, " "), words);
}
