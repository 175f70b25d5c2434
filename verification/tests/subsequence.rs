use bpf_profile::text::{chars_of, starts_with};

/// Searches (ineffectively) a subslice in another slice.
fn find_subsequence<T>(haystack: &[T], needle: &[T]) -> Option<usize>
where
    for<'a> &'a [T]: PartialEq,
{
    haystack
        .windows(needle.len())
        .position(|window| window == needle)
}

#[test]
fn subsequence() {
    let r = find_subsequence(b"lorem ipsum dolor sit amet", b"dolor");
    assert!(r.is_some());
    assert_eq!(r.unwrap(), 12);
    let r = find_subsequence(b"lorem ipsum dolor sit amet", b"Terminator");
    assert!(r.is_none());
}

#[test]
fn prefix_of_a_text() {
    let text = chars_of("lorem ipsum dolor sit amet");
    assert!(starts_with(&text, &chars_of("lorem")));
    assert!(starts_with(&text, &chars_of("")));
    assert!(!starts_with(&text, &chars_of("ipsum")));
    assert!(!starts_with(&chars_of("lo"), &chars_of("lorem")));
}
