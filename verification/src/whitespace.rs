//! Collapsing of ASCII whitespace in text.
use vstd::prelude::*;
use vstd::std_specs::iter::IteratorSpec;

verus! {

broadcast use vstd::string::group_string_axioms;

/// Space, tab, line feed, form feed and carriage return.
pub open spec fn spec_is_ascii_whitespace(c: char) -> bool {
    c == ' ' || c == '\t' || c == '\n' || c == '\x0C' || c == '\r'
}

/// Whether `c` is one of the five characters of ASCII whitespace.
#[verifier::when_used_as_spec(spec_is_ascii_whitespace)]
pub fn is_ascii_whitespace(c: char) -> (r: bool)
    ensures
        r == spec_is_ascii_whitespace(c),
{
    c == ' ' || c == '\t' || c == '\n' || c == '\x0C' || c == '\r'
}

pub open spec fn starts_with_whitespace(s: Seq<char>) -> bool {
    s.len() > 0 && is_ascii_whitespace(s[0])
}

pub open spec fn ends_with_space(s: Seq<char>) -> bool {
    s.len() > 0 && s.last() == ' '
}

/// `s` without its leading whitespace.
pub open spec fn trim_start(s: Seq<char>) -> Seq<char>
    decreases s.len(),
{
    if starts_with_whitespace(s) {
        trim_start(s.drop_first())
    } else {
        s
    }
}

/// `s` with each run of whitespace replaced by one space; every other
/// character stays as it is.
pub open spec fn collapse(s: Seq<char>) -> Seq<char>
    decreases s.len(),
{
    if s.len() == 0 {
        Seq::empty()
    } else if !is_ascii_whitespace(s.last()) {
        collapse(s.drop_last()).push(s.last())
    } else if s.len() >= 2 && is_ascii_whitespace(s[s.len() - 2]) {
        collapse(s.drop_last())
    } else {
        collapse(s.drop_last()).push(' ')
    }
}

/// No whitespace but single spaces.
pub open spec fn is_collapsed(s: Seq<char>) -> bool {
    &&& forall|i: int| 0 <= i < s.len() && is_ascii_whitespace(#[trigger] s[i]) ==> s[i] == ' '
    &&& forall|i: int| 0 <= i < s.len() - 1 && #[trigger] s[i] == ' ' ==> s[i + 1] != ' '
}

/// Collapsed, and with no whitespace at either end.
pub open spec fn is_fully_collapsed(s: Seq<char>) -> bool {
    &&& is_collapsed(s)
    &&& !starts_with_whitespace(s)
    &&& !ends_with_space(s)
}

/// Leading whitespace ends at `k`: `trim_start` drops exactly that much.
pub proof fn lemma_trim_start_skips(s: Seq<char>, k: int)
    requires
        0 <= k <= s.len(),
        forall|j: int| 0 <= j < k ==> is_ascii_whitespace(#[trigger] s[j]),
        k < s.len() ==> !is_ascii_whitespace(s[k]),
    ensures
        trim_start(s) == s.skip(k),
    decreases k,
{
    if k == 0 {
        assert(s.skip(0) =~= s);
    } else {
        let t = s.drop_first();
        assert forall|j: int| 0 <= j < k - 1 implies is_ascii_whitespace(#[trigger] t[j]) by {
            assert(t[j] == s[j + 1]);
        }
        lemma_trim_start_skips(t, k - 1);
        assert(t.skip(k - 1) =~= s.skip(k));
    }
}

/// Collapsing makes text no longer; it leaves text that is not empty not
/// empty, with a space at its end where there was whitespace.
pub proof fn lemma_collapse_len(s: Seq<char>)
    ensures
        collapse(s).len() <= s.len(),
        s.len() > 0 ==> collapse(s).len() > 0,
        s.len() > 0 ==> collapse(s).last() == (if is_ascii_whitespace(s.last()) {
            ' '
        } else {
            s.last()
        }),
    decreases s.len(),
{
    if s.len() > 0 {
        lemma_collapse_len(s.drop_last());
    }
}

/// What `trim_start` returns does not start with whitespace, and is a
/// suffix of its argument.
pub proof fn lemma_trim_start(s: Seq<char>)
    ensures
        !starts_with_whitespace(trim_start(s)),
        trim_start(s).len() <= s.len(),
        !starts_with_whitespace(s) ==> trim_start(s) == s,
    decreases s.len(),
{
    if starts_with_whitespace(s) {
        lemma_trim_start(s.drop_first());
    }
}

/// Collapsing text that is already collapsed changes nothing.
pub proof fn lemma_collapse_of_collapsed(s: Seq<char>)
    requires
        is_collapsed(s),
    ensures
        collapse(s) == s,
    decreases s.len(),
{
    if s.len() > 0 {
        let init = s.drop_last();
        assert(is_collapsed(init)) by {
            assert forall|i: int| 0 <= i < init.len() && is_ascii_whitespace(
                #[trigger] init[i],
            ) implies init[i] == ' ' by {
                assert(init[i] == s[i]);
            }
            assert forall|i: int| 0 <= i < init.len() - 1 && #[trigger] init[i] == ' ' implies init[i
                + 1] != ' ' by {
                assert(init[i] == s[i]);
                assert(init[i + 1] == s[i + 1]);
            }
        }
        lemma_collapse_of_collapsed(init);
        if is_ascii_whitespace(s.last()) {
            assert(s[s.len() - 1] == ' ');
            if s.len() >= 2 && is_ascii_whitespace(s[s.len() - 2]) {
                assert(s[s.len() - 2] == ' ');
                assert(s[s.len() - 2 + 1] != ' ');
            }
        }
        assert(init.push(s.last()) =~= s);
    }
}

/// Whitespace idempotence: fully collapsed text is left as it is by
/// trimming and collapsing.
pub proof fn lemma_fully_collapsed_is_kept(s: Seq<char>)
    requires
        is_fully_collapsed(s),
    ensures
        collapse(trim_start(s)) == s,
{
    lemma_trim_start(s);
    lemma_collapse_of_collapsed(s);
}

/// What `collapse` returns is collapsed.
pub proof fn lemma_collapse_is_collapsed(s: Seq<char>)
    ensures
        is_collapsed(collapse(s)),
    decreases s.len(),
{
    if s.len() > 0 {
        let init = s.drop_last();
        lemma_collapse_is_collapsed(init);
        lemma_collapse_len(init);
        let c = collapse(init);
        if !is_ascii_whitespace(s.last()) {
            let r = c.push(s.last());
            assert forall|i: int| 0 <= i < r.len() - 1 && #[trigger] r[i] == ' ' implies r[i + 1]
                != ' ' by {
                if i < c.len() - 1 {
                    assert(c[i] == ' ');
                    assert(r[i + 1] == c[i + 1]);
                }
            }
        } else if s.len() >= 2 && is_ascii_whitespace(s[s.len() - 2]) {
        } else {
            let r = c.push(' ');
            assert forall|i: int| 0 <= i < r.len() - 1 && #[trigger] r[i] == ' ' implies r[i + 1]
                != ' ' by {
                if i < c.len() - 1 {
                    assert(c[i] == ' ');
                    assert(r[i + 1] == c[i + 1]);
                } else {
                    assert(init.len() > 0);
                    assert(init.last() == s[s.len() - 2]);
                    assert(c.last() == r[i]);
                }
            }
        }
    }
}

/// Collapsing twice is collapsing once.
pub proof fn lemma_collapse_idempotent(s: Seq<char>)
    ensures
        collapse(collapse(s)) == collapse(s),
{
    lemma_collapse_is_collapsed(s);
    lemma_collapse_of_collapsed(collapse(s));
}

/// `String::push`: appends one character.
#[verifier::external_body]
pub(crate) fn string_push(s: &mut String, c: char)
    ensures
        final(s)@ == old(s)@.push(c),
{
    s.push(c)
}

/// Whether the first character of `text` is whitespace.
pub fn begins_with_whitespace(text: &str) -> (r: bool)
    ensures
        r == starts_with_whitespace(text@),
{
    let mut chars = text.chars();
    match chars.next() {
        Some(c) => is_ascii_whitespace(c),
        None => false,
    }
}

/// Whether the last character of `text` is a space.
pub fn ends_with_a_space(text: &str) -> (r: bool)
    ensures
        r == ends_with_space(text@),
{
    let mut last_is_space = false;
    let mut chars = text.chars();
    let ghost mut i: int = 0;
    loop
        invariant
            0 <= i <= text@.len(),
            chars.remaining() == text@.skip(i),
            chars.obeys_prophetic_iter_laws(),
            last_is_space == (i > 0 && text@[i - 1] == ' '),
        ensures
            last_is_space == ends_with_space(text@),
        decreases text@.len() - i,
    {
        match chars.next() {
            Some(c) => {
                proof {
                    assert(text@.skip(i)[0] == text@[i]);
                    assert(text@.skip(i).drop_first() =~= text@.skip(i + 1));
                    i = i + 1;
                }
                last_is_space = c == ' ';
            },
            None => {
                assert(i == text@.len());
                break ;
            },
        }
    }
    last_is_space
}

/// `text` from its first character that is not whitespace.
pub fn trim_leading_whitespace(text: &str) -> (rest: &str)
    ensures
        rest@ == trim_start(text@),
{
    let total = text.unicode_len();
    let mut chars = text.chars();
    let mut leading: usize = 0;
    loop
        invariant_except_break
            chars.remaining() == text@.skip(leading as int),
        invariant
            0 <= leading <= total == text@.len(),
            chars.obeys_prophetic_iter_laws(),
            forall|j: int| 0 <= j < leading ==> is_ascii_whitespace(#[trigger] text@[j]),
        ensures
            0 <= leading <= total == text@.len(),
            forall|j: int| 0 <= j < leading ==> is_ascii_whitespace(#[trigger] text@[j]),
            leading < total ==> !is_ascii_whitespace(text@[leading as int]),
        decreases total - leading,
    {
        match chars.next() {
            Some(c) => {
                proof {
                    assert(text@.skip(leading as int)[0] == text@[leading as int]);
                    assert(text@.skip(leading as int).drop_first() =~= text@.skip(leading + 1));
                }
                if is_ascii_whitespace(c) {
                    leading = leading + 1;
                } else {
                    break ;
                }
            },
            None => {
                assert(leading == total);
                break ;
            },
        }
    }
    proof {
        lemma_trim_start_skips(text@, leading as int);
        assert(text@.skip(leading as int) =~= text@.subrange(leading as int, total as int));
    }
    text.substring_char(leading, total)
}

/// Appends to `output` what is left of `text` after its leading whitespace,
/// collapsed.
pub fn push_collapsed(output: &mut String, text: &str)
    ensures
        final(output)@ == old(output)@ + collapse(trim_start(text@)),
{
    let mut chars = text.chars();
    let mut started = false;
    let mut in_whitespace = false;
    let ghost mut i: int = 0;
    let ghost mut start: int = 0;
    loop
        invariant
            0 <= i <= text@.len(),
            chars.remaining() == text@.skip(i),
            chars.obeys_prophetic_iter_laws(),
            forall|j: int| 0 <= j < (if started { start } else { i }) ==> is_ascii_whitespace(#[trigger] text@[j]),
            started ==> 0 <= start < i && !is_ascii_whitespace(text@[start]),
            started ==> output@ == old(output)@ + collapse(text@.subrange(start, i)),
            !started ==> output@ == old(output)@,
            started ==> in_whitespace == is_ascii_whitespace(text@[i - 1]),
        ensures
            output@ == old(output)@ + collapse(trim_start(text@)),
        decreases text@.len() - i,
    {
        match chars.next() {
            Some(c) => {
                proof {
                    assert(text@.skip(i)[0] == text@[i]);
                    assert(text@.skip(i).drop_first() =~= text@.skip(i + 1));
                }
                let whitespace = is_ascii_whitespace(c);
                if !started {
                    if !whitespace {
                        proof {
                            start = i;
                            let one = text@.subrange(i, i + 1);
                            assert(one.drop_last() =~= Seq::<char>::empty());
                            assert(one.last() == c);
                            assert(collapse(Seq::<char>::empty()) =~= Seq::<char>::empty());
                            assert(collapse(one) =~= Seq::<char>::empty().push(c));
                            assert(old(output)@ + Seq::<char>::empty().push(c) =~= old(output)@.push(
                                c,
                            ));
                        }
                        started = true;
                        in_whitespace = false;
                        string_push(output, c);
                    }
                } else {
                    proof {
                        let next = text@.subrange(start, i + 1);
                        assert(next.drop_last() =~= text@.subrange(start, i));
                        assert(next.last() == c);
                        assert(next.len() >= 2);
                        assert(next[next.len() - 2] == text@[i - 1]);
                        let before = collapse(text@.subrange(start, i));
                        assert(collapse(next) == if !whitespace {
                            before.push(c)
                        } else if in_whitespace {
                            before
                        } else {
                            before.push(' ')
                        });
                        assert((old(output)@ + before).push(c) =~= old(output)@ + before.push(c));
                        assert((old(output)@ + before).push(' ') =~= old(output)@ + before.push(
                            ' ',
                        ));
                    }
                    if !whitespace {
                        string_push(output, c);
                    } else if !in_whitespace {
                        string_push(output, ' ');
                    }
                    in_whitespace = whitespace;
                }
                proof {
                    i = i + 1;
                }
            },
            None => {
                proof {
                    assert(i == text@.len());
                    if started {
                        lemma_trim_start_skips(text@, start);
                        assert(text@.skip(start) =~= text@.subrange(start, i));
                    } else {
                        lemma_trim_start_skips(text@, i);
                        assert(text@.skip(i) =~= Seq::<char>::empty());
                        assert(old(output)@ + Seq::<char>::empty() =~= old(output)@);
                    }
                }
                break ;
            },
        }
    }
}

/// The text that a text node adds to an inline formatting context: its
/// leading whitespace as one space where that is preserved, then the rest,
/// collapsed.
pub open spec fn collapsed_text(text: Seq<char>, leading_whitespace: bool) -> Seq<char> {
    if leading_whitespace {
        seq![' '] + collapse(trim_start(text))
    } else {
        collapse(trim_start(text))
    }
}

/// Computes `collapsed_text` into a new string.
pub fn collapse_text(text: &str, leading_whitespace: bool) -> (r: String)
    ensures
        r@ == collapsed_text(text@, leading_whitespace),
{
    let mut output = String::new();
    if leading_whitespace {
        string_push(&mut output, ' ');
    }
    assert(output@ =~= if leading_whitespace { seq![' '] } else { Seq::<char>::empty() });
    push_collapsed(&mut output, text);
    assert(Seq::<char>::empty() + collapse(trim_start(text@)) =~= collapse(trim_start(text@)));
    output
}

} // verus!
