//! The extraction state machine: turns raw source lines into normalized
//! README lines.
//!
//! Only lines carrying the documentation marker `//!` are kept. A single
//! pass tracks whether the cursor is inside a fenced example block and of
//! which kind ([`FenceState`]); host-language fences are re-tagged, hidden
//! setup lines inside them are suppressed, and headings in prose are
//! optionally indented one extra level.

use vstd::prelude::*;

use crate::text;

verus! {

/// Where the scan currently stands: outside any fence, inside a fence of
/// host-language example code, or inside a fence tagged with another
/// language.
#[derive(Clone, Copy, PartialEq, Eq, Structural)]
pub enum FenceState {
    Prose,
    HostFence,
    OtherFence,
}

/// The line carries the documentation marker.
pub open spec fn is_marked(l: Seq<char>) -> bool {
    text::has_prefix(l, "//!"@)
}

/// Whitespace as far as blank marker lines are concerned.
pub open spec fn is_space(c: char) -> bool {
    c == ' ' || c == '\t' || c == '\r' || c == '\n'
}

/// A marker line with nothing but whitespace after the marker; it stands
/// for a blank documentation line.
pub open spec fn is_blank_marker(l: Seq<char>) -> bool {
    is_marked(l) && forall|i: int| 3 <= i < l.len() ==> is_space(#[trigger] l[i])
}

/// The marked line without its marker prefix: a blank marker line becomes
/// the empty line, any other loses the marker and the following space.
pub open spec fn strip_marker_spec(l: Seq<char>) -> Seq<char> {
    if is_blank_marker(l) {
        Seq::<char>::empty()
    } else {
        l.skip(4)
    }
}

/// A fence-open line whose content is host-language code: the marker, the
/// triple backtick, and at most a qualifier.
pub open spec fn is_host_open(l: Seq<char>) -> bool {
    ||| l == "//! ```"@
    ||| l == "//! ```no_run"@
    ||| l == "//! ```ignore"@
    ||| l == "//! ```should_panic"@
}

/// A word character, as language tags are made of.
pub open spec fn is_word_char(c: char) -> bool {
    ('a' <= c && c <= 'z') || ('A' <= c && c <= 'Z') || ('0' <= c && c <= '9') || c == '_'
}

/// A marked triple backtick followed by a language tag occurs at position
/// `i` of the line.
pub open spec fn other_open_at(l: Seq<char>, i: int) -> bool {
    &&& 0 <= i
    &&& i + 8 <= l.len()
    &&& l.subrange(i, i + 7) == "//! ```"@
    &&& is_word_char(l[i + 7])
}

/// The line opens a fence explicitly tagged with some other language.
pub open spec fn is_other_open(l: Seq<char>) -> bool {
    exists|i: int| other_open_at(l, i)
}

/// The line closes the current fence: exactly the marker and the triple
/// backtick.
pub open spec fn is_close(l: Seq<char>) -> bool {
    l == "//! ```"@
}

/// A hidden setup line: inside a host-language fence it is left out of the
/// output.
pub open spec fn is_hidden(l: Seq<char>) -> bool {
    text::has_prefix(l, "//! # "@)
}

/// One step of the extraction machine: the state after reading `l`, and
/// the line emitted for it, if any.
pub open spec fn step_spec(state: FenceState, l: Seq<char>, indent_headings: bool) -> (
    FenceState,
    Option<Seq<char>>,
) {
    if !is_marked(l) {
        (state, None::<Seq<char>>)
    } else if state is Prose && is_host_open(l) {
        (FenceState::HostFence, Some("```rust"@))
    } else if state is Prose && is_other_open(l) {
        (FenceState::OtherFence, Some(strip_marker_spec(l)))
    } else if !(state is Prose) && is_close(l) {
        (FenceState::Prose, Some("```"@))
    } else if state is HostFence && is_hidden(l) {
        (state, None::<Seq<char>>)
    } else {
        let s = strip_marker_spec(l);
        if indent_headings && state is Prose && s.len() > 0 && s[0] == '#' {
            (state, Some("#"@ + s))
        } else {
            (state, Some(s))
        }
    }
}

/// Runs the machine over all lines from the initial `Prose` state: the
/// final state and the emitted lines, in input order.
pub open spec fn run_spec(lines: Seq<Seq<char>>, indent_headings: bool) -> (
    FenceState,
    Seq<Seq<char>>,
)
    decreases lines.len(),
{
    if lines.len() == 0 {
        (FenceState::Prose, Seq::<Seq<char>>::empty())
    } else {
        let prev = run_spec(lines.drop_last(), indent_headings);
        let st = step_spec(prev.0, lines.last(), indent_headings);
        match st.1 {
            None => (st.0, prev.1),
            Some(o) => (st.0, prev.1.push(o)),
        }
    }
}

/// What [`extract`] emits.
pub open spec fn extract_spec(lines: Seq<Seq<char>>, indent_headings: bool) -> Seq<Seq<char>> {
    run_spec(lines, indent_headings).1
}

/// Law: every output line is either a synthesized fence delimiter or comes
/// from a marked input line — its marker stripped, at most one heading
/// marker prepended. No unmarked line ever appears in the output.
pub proof fn lemma_output_lines_from_marked_input(lines: Seq<Seq<char>>, indent_headings: bool)
    ensures
        forall|j: int|
            0 <= j < extract_spec(lines, indent_headings).len() ==> {
                let o = #[trigger] extract_spec(lines, indent_headings)[j];
                ||| o == "```rust"@
                ||| o == "```"@
                ||| exists|i: int|
                    0 <= i < lines.len() && is_marked(#[trigger] lines[i]) && (o
                        == strip_marker_spec(lines[i]) || o == "#"@ + strip_marker_spec(lines[i]))
            },
    decreases lines.len(),
{
    if lines.len() > 0 {
        let prev = lines.drop_last();
        lemma_output_lines_from_marked_input(prev, indent_headings);
        let pr = run_spec(prev, indent_headings);
        let st = step_spec(pr.0, lines.last(), indent_headings);
        let cur = extract_spec(lines, indent_headings);
        assert forall|j: int| 0 <= j < cur.len() implies {
            let o = #[trigger] cur[j];
            ||| o == "```rust"@
            ||| o == "```"@
            ||| exists|i: int|
                0 <= i < lines.len() && is_marked(#[trigger] lines[i]) && (o == strip_marker_spec(
                    lines[i],
                ) || o == "#"@ + strip_marker_spec(lines[i]))
        } by {
            if j < pr.1.len() {
                let o = extract_spec(prev, indent_headings)[j];
                assert(cur[j] == o);
                if !(o == "```rust"@ || o == "```"@) {
                    let i = choose|i: int|
                        0 <= i < prev.len() && is_marked(#[trigger] prev[i]) && (o
                            == strip_marker_spec(prev[i]) || o == "#"@ + strip_marker_spec(
                            prev[i],
                        ));
                    assert(prev[i] == lines[i]);
                    assert(is_marked(lines[i]) && (o == strip_marker_spec(lines[i]) || o == "#"@
                        + strip_marker_spec(lines[i])));
                }
            } else {
                // the line just pushed comes from the last input line
                let l = lines.last();
                assert(st.1 is Some && cur[j] == st.1.unwrap());
                assert(is_marked(l));
                let i = lines.len() - 1;
                assert(lines[i] == l);
                if !(cur[j] == "```rust"@ || cur[j] == "```"@) {
                    assert(is_marked(lines[i]) && (cur[j] == strip_marker_spec(lines[i]) || cur[j]
                        == "#"@ + strip_marker_spec(lines[i])));
                }
            }
        }
    }
}

/// Law: a host-language fence opened with any qualifier normalizes to the
/// host-tagged opening delimiter, and the close emits the bare delimiter,
/// regardless of the qualifier used to open.
pub proof fn lemma_fence_round_trip(l: Seq<char>, indent_headings: bool)
    requires
        is_host_open(l),
    ensures
        step_spec(FenceState::Prose, l, indent_headings) == (
            FenceState::HostFence,
            Some("```rust"@),
        ),
        step_spec(FenceState::HostFence, "//! ```"@, indent_headings) == (
            FenceState::Prose,
            Some("```"@),
        ),
        extract_spec(seq![l, "//! ```"@], indent_headings) == seq!["```rust"@, "```"@],
{
    reveal_strlit("//!");
    reveal_strlit("//! ```");
    reveal_strlit("//! ```no_run");
    reveal_strlit("//! ```ignore");
    reveal_strlit("//! ```should_panic");
    assert(l.subrange(0, 3) =~= "//!"@);
    assert(is_marked(l));
    assert(("//! ```"@).subrange(0, 3) =~= "//!"@);
    assert(is_marked("//! ```"@));
    assert(is_close("//! ```"@));
    let lines = seq![l, "//! ```"@];
    assert(lines.drop_last() =~= seq![l]);
    assert(seq![l].drop_last() =~= Seq::<Seq<char>>::empty());
    assert(run_spec(Seq::<Seq<char>>::empty(), indent_headings) == (
        FenceState::Prose,
        Seq::<Seq<char>>::empty(),
    ));
    assert(Seq::<Seq<char>>::empty().push("```rust"@) =~= seq!["```rust"@]);
    assert(run_spec(seq![l], indent_headings) == (FenceState::HostFence, seq!["```rust"@]));
    assert(seq!["```rust"@].push("```"@) =~= seq!["```rust"@, "```"@]);
    assert(run_spec(lines, indent_headings).1 == seq!["```rust"@, "```"@]);
}

/// Law: hidden-line suppression applies only inside host-language fences.
/// The same hidden-marker line is emitted, marker stripped, inside an
/// other-tagged fence, and is never suppressed in prose either.
pub proof fn lemma_hidden_only_in_host_fence(l: Seq<char>, indent_headings: bool)
    requires
        is_hidden(l),
    ensures
        step_spec(FenceState::HostFence, l, indent_headings) == (
            FenceState::HostFence,
            None::<Seq<char>>,
        ),
        step_spec(FenceState::OtherFence, l, indent_headings) == (
            FenceState::OtherFence,
            Some(strip_marker_spec(l)),
        ),
        step_spec(FenceState::Prose, l, indent_headings).1 is Some,
{
    reveal_strlit("//!");
    reveal_strlit("//! # ");
    reveal_strlit("//! ```");
    assert(l.subrange(0, 6) == "//! # "@);
    assert(l.subrange(0, 6)[4] == l[4]);
    assert(l[4] == '#');
    assert(l.subrange(0, 3) =~= "//!"@);
    assert(is_marked(l));
    assert(!is_close(l)) by {
        if is_close(l) {
            assert(l[4] == '`');
        }
    }
    assert(!is_host_open(l)) by {
        reveal_strlit("//! ```no_run");
        reveal_strlit("//! ```ignore");
        reveal_strlit("//! ```should_panic");
        if is_host_open(l) {
            assert(l[4] == '`');
        }
    }
}

/// Law: the heading-indent option never changes a line emitted inside a
/// fence, nor any state transition or suppression; the only difference it
/// makes is one extra heading marker on a prose heading line.
pub proof fn lemma_indent_only_outside_fences(state: FenceState, l: Seq<char>)
    ensures
        step_spec(state, l, true).0 == step_spec(state, l, false).0,
        step_spec(state, l, true).1 is Some <==> step_spec(state, l, false).1 is Some,
        !(state is Prose) ==> step_spec(state, l, true) == step_spec(state, l, false),
        step_spec(state, l, true).1 != step_spec(state, l, false).1 ==> {
            let o = step_spec(state, l, false).1.unwrap();
            &&& state is Prose
            &&& o.len() > 0
            &&& o[0] == '#'
            &&& step_spec(state, l, true).1 == Some("#"@ + o)
        },
{
}

/// Law, over whole inputs: with and without heading indentation the
/// extractor emits the same number of lines in the same order, equal
/// except that a prose heading line gains one extra heading marker.
pub proof fn lemma_extract_indent_line_by_line(lines: Seq<Seq<char>>)
    ensures
        run_spec(lines, true).0 == run_spec(lines, false).0,
        extract_spec(lines, true).len() == extract_spec(lines, false).len(),
        forall|j: int|
            0 <= j < extract_spec(lines, false).len() ==> {
                let a = #[trigger] extract_spec(lines, false)[j];
                let b = #[trigger] extract_spec(lines, true)[j];
                b == a || (a.len() > 0 && a[0] == '#' && b == "#"@ + a)
            },
    decreases lines.len(),
{
    if lines.len() > 0 {
        let prev = lines.drop_last();
        lemma_extract_indent_line_by_line(prev);
        lemma_indent_only_outside_fences(run_spec(prev, false).0, lines.last());
    }
}

fn is_space_exec(c: char) -> (r: bool)
    ensures
        r == is_space(c),
{
    c == ' ' || c == '\t' || c == '\r' || c == '\n'
}

fn is_word_char_exec(c: char) -> (r: bool)
    ensures
        r == is_word_char(c),
{
    ('a' <= c && c <= 'z') || ('A' <= c && c <= 'Z') || ('0' <= c && c <= '9') || c == '_'
}

fn is_host_open_exec(l: &str) -> (r: bool)
    ensures
        r == is_host_open(l@),
{
    text::str_eq(l, "//! ```") || text::str_eq(l, "//! ```no_run") || text::str_eq(
        l,
        "//! ```ignore",
    ) || text::str_eq(l, "//! ```should_panic")
}

fn is_other_open_exec(l: &str) -> (r: bool)
    ensures
        r == is_other_open(l@),
{
    let len = l.unicode_len();
    proof {
        reveal_strlit("//! ```");
    }
    if len < 8 {
        proof {
            assert(forall|i: int| !other_open_at(l@, i));
        }
        return false;
    }
    let mut i: usize = 0;
    while i <= len - 8
        invariant
            len == l@.len(),
            len >= 8,
            ("//! ```"@).len() == 7,
            i <= len - 8 + 1,
            forall|j: int| 0 <= j < i ==> !other_open_at(l@, j),
        decreases len - i,
    {
        if text::matches_at(l, "//! ```", i) && is_word_char_exec(l.get_char(i + 7)) {
            proof {
                assert(other_open_at(l@, i as int));
            }
            return true;
        }
        i += 1;
    }
    proof {
        assert forall|j: int| !other_open_at(l@, j) by {
            if j >= i {
                assert(j + 8 > len);
            }
        }
    }
    false
}

/// Strips the documentation marker; callers have checked that the line
/// carries it.
fn strip_marker(l: &str) -> (r: String)
    requires
        is_marked(l@),
    ensures
        r@ == strip_marker_spec(l@),
{
    let len = l.unicode_len();
    proof {
        reveal_strlit("//!");
    }
    let mut i: usize = 3;
    let mut blank = true;
    while i < len
        invariant
            len == l@.len(),
            len >= 3,
            3 <= i <= len,
            blank ==> forall|j: int| 3 <= j < i ==> is_space(#[trigger] l@[j]),
            !blank ==> exists|j: int| 3 <= j < i && !is_space(#[trigger] l@[j]),
        decreases len - i,
    {
        if !is_space_exec(l.get_char(i)) {
            blank = false;
        }
        i += 1;
    }
    if blank {
        proof {
            assert(is_blank_marker(l@));
        }
        String::new()
    } else {
        proof {
            assert(!is_blank_marker(l@));
        }
        let r = l.substring_char(4, len);
        proof {
            assert(r@ =~= l@.skip(4));
        }
        r.to_owned()
    }
}

/// Processes one raw line in the given state: the next state, and the
/// output line it contributes, if any.
fn process_line(line: &str, state: FenceState, indent_headings: bool) -> (r: (
    FenceState,
    Option<String>,
))
    ensures
        ({
            let s = step_spec(state, line@, indent_headings);
            &&& r.0 == s.0
            &&& match r.1 {
                Some(o) => s.1 == Some(o@),
                None => s.1 is None,
            }
        }),
{
    if !text::starts_with(line, "//!") {
        return (state, None);
    }
    if state == FenceState::Prose && is_host_open_exec(line) {
        return (FenceState::HostFence, Some("```rust".to_owned()));
    }
    if state == FenceState::Prose && is_other_open_exec(line) {
        return (FenceState::OtherFence, Some(strip_marker(line)));
    }
    if state != FenceState::Prose && text::str_eq(line, "//! ```") {
        return (FenceState::Prose, Some("```".to_owned()));
    }
    if state == FenceState::HostFence && text::starts_with(line, "//! # ") {
        return (state, None);
    }
    let s = strip_marker(line);
    if indent_headings && state == FenceState::Prose && s.as_str().unicode_len() > 0
        && s.as_str().get_char(0) == '#' {
        let mut out = "#".to_owned();
        out.append(s.as_str());
        (state, Some(out))
    } else {
        (state, Some(s))
    }
}

/// Extracts the documentation comments of the source lines as normalized
/// README lines, as [`extract_spec`] states.
pub fn extract(source: &Vec<String>, indent_headings: bool) -> (r: Vec<String>)
    ensures
        text::views(r@) == extract_spec(text::views(source@), indent_headings),
{
    let mut out: Vec<String> = Vec::new();
    let mut state = FenceState::Prose;
    let mut i: usize = 0;
    while i < source.len()
        invariant
            i <= source@.len(),
            run_spec(text::views(source@).take(i as int), indent_headings).0 == state,
            run_spec(text::views(source@).take(i as int), indent_headings).1 == text::views(out@),
        decreases source@.len() - i,
    {
        proof {
            let vs = text::views(source@);
            assert(vs.take(i + 1).drop_last() =~= vs.take(i as int));
            assert(vs.take(i + 1).last() == vs[i as int]);
        }
        let (next, emit) = process_line(source[i].as_str(), state, indent_headings);
        state = next;
        match emit {
            Some(o) => {
                let ghost prev = out@;
                out.push(o);
                proof {
                    assert(text::views(out@) =~= text::views(prev).push(out@.last()@));
                }
            },
            None => {},
        }
        i += 1;
    }
    proof {
        assert(text::views(source@).take(source@.len() as int) =~= text::views(source@));
    }
    out
}

} // verus!
