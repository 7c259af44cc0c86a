use cargo_readme::extractor::extract;

const INPUT: &'static str = r#"//! first line
//! ```
//! let rust_code = "will show";
//! # let binding = "won't show";
//! ```
//! # heading
//! ```no_run
//! let no_run = true;
//! ```
//! ```ignore
//! let ignore = true;
//! ```
//! ```should_panic
//! let should_panic = true;
//! ```
//! # heading
//! ```C
//! int i = 0; // no rust code
//! ```
use std::any::Any;

fn main() {}"#;

fn to_lines(input: &str) -> Vec<String> {
    input.lines().map(|l| l.to_string()).collect()
}

#[test]
fn extract_indent_headings() {
    let expected: Vec<_> = r#"first line
```rust
let rust_code = "will show";
```
## heading
```rust
let no_run = true;
```
```rust
let ignore = true;
```
```rust
let should_panic = true;
```
## heading
```C
int i = 0; // no rust code
```"#
        .lines()
        .collect();

    let lines = to_lines(INPUT);
    let doc_data = extract(&lines, true);

    assert_eq!(doc_data, expected);
}

#[test]
fn extract_no_indent_headings() {
    let expected: Vec<_> = r#"first line
```rust
let rust_code = "will show";
```
# heading
```rust
let no_run = true;
```
```rust
let ignore = true;
```
```rust
let should_panic = true;
```
# heading
```C
int i = 0; // no rust code
```"#
        .lines()
        .collect();

    let lines = to_lines(INPUT);
    let doc_data = extract(&lines, false);

    assert_eq!(doc_data, expected);
}

#[test]
fn extract_discards_unmarked_lines() {
    let lines = to_lines("//! doc\nfn main() {}\nlet x = 3;\n//! more");
    let expected = vec!["doc", "more"];
    assert_eq!(extract(&lines, true), expected);
}

#[test]
fn extract_empty_input() {
    let lines: Vec<String> = Vec::new();
    let result = extract(&lines, true);
    assert!(result.is_empty());
}

#[test]
fn extract_blank_marker_lines() {
    let lines = to_lines("//! a\n//!\n//! b");
    let expected = vec!["a", "", "b"];
    assert_eq!(extract(&lines, false), expected);
}

#[test]
fn extract_marker_with_trailing_space_is_blank() {
    let lines: Vec<String> = vec!["//! ".to_string(), "//!  ".to_string()];
    let expected = vec!["", ""];
    assert_eq!(extract(&lines, false), expected);
}

#[test]
fn extract_hidden_line_suppressed_in_host_fence() {
    let lines = to_lines("//! ```\n//! # setup();\n//! shown();\n//! ```");
    let expected = vec!["```rust", "shown();", "```"];
    assert_eq!(extract(&lines, true), expected);
}

#[test]
fn extract_hidden_line_kept_in_other_fence() {
    let lines = to_lines("//! ```C\n//! # not hidden here\n//! ```");
    let expected = vec!["```C", "# not hidden here", "```"];
    assert_eq!(extract(&lines, true), expected);
}

#[test]
fn extract_hidden_marker_kept_in_prose() {
    let lines = to_lines("//! # heading with space");
    let expected = vec!["## heading with space"];
    assert_eq!(extract(&lines, true), expected);
}

#[test]
fn extract_heading_without_space_still_indented() {
    let lines = to_lines("//! #heading");
    let expected = vec!["##heading"];
    assert_eq!(extract(&lines, true), expected);
}

#[test]
fn extract_heading_inside_fence_not_indented() {
    let lines = to_lines("//! ```text\n//! # kept as is\n//! ```");
    let expected = vec!["```text", "# kept as is", "```"];
    assert_eq!(extract(&lines, true), expected);
}

#[test]
fn extract_fence_qualifiers_normalize_and_close_identically() {
    for qualifier in ["", "no_run", "ignore", "should_panic"] {
        let lines: Vec<String> = vec![format!("//! ```{}", qualifier), "//! ```".to_string()];
        let expected = vec!["```rust", "```"];
        assert_eq!(extract(&lines, true), expected);
    }
}

#[test]
fn extract_unterminated_fence_accepted() {
    let lines = to_lines("//! ```\n//! let x = 1;");
    let expected = vec!["```rust", "let x = 1;"];
    assert_eq!(extract(&lines, false), expected);
}
