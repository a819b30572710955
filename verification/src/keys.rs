//! Normal form of private-key material: Unix line endings and exactly one
//! line terminator at the end. Some key parsers refuse anything else.

use vstd::prelude::*;
use vstd::string::StringExecFns;

verus! {

/// Whether a Windows line ending, a carriage return directly followed by a
/// line feed, starts at position `i`.
pub open spec fn is_crlf_at(s: Seq<char>, i: int) -> bool {
    0 <= i && i + 1 < s.len() && s[i] == '\r' && s[i + 1] == '\n'
}

/// Whether a carriage return at position `i` stands directly before a Windows
/// line ending.
pub open spec fn is_cr_before_crlf(s: Seq<char>, i: int) -> bool {
    0 <= i < s.len() && s[i] == '\r' && is_crlf_at(s, i + 1)
}

/// The first `n` characters of a text without the carriage returns that start
/// a Windows line ending.
pub open spec fn kept_upto(s: Seq<char>, n: int) -> Seq<char>
    decreases n,
{
    if n <= 0 {
        Seq::empty()
    } else if is_crlf_at(s, n - 1) {
        kept_upto(s, n - 1)
    } else {
        kept_upto(s, n - 1).push(s[n - 1])
    }
}

/// A text with every Windows line ending turned into a Unix one: each
/// carriage return that is directly followed by a line feed is left out.
pub open spec fn unix_endings(s: Seq<char>) -> Seq<char> {
    kept_upto(s, s.len() as int)
}

/// A text without the line feeds at its end.
pub open spec fn without_trailing_newlines(s: Seq<char>) -> Seq<char>
    decreases s.len(),
{
    if s.len() > 0 && s.last() == '\n' {
        without_trailing_newlines(s.drop_last())
    } else {
        s
    }
}

/// The normal form of key material: Unix line endings, and one line feed in
/// place of whatever run of line feeds, or none, stood at the end.
pub open spec fn normalized_key(key: Seq<char>) -> Seq<char> {
    without_trailing_newlines(unix_endings(key)).push('\n')
}

/// Turns every Windows line ending of a text into a Unix one.
pub fn unix_line_endings(text: &str) -> (r: String)
    ensures
        r@ == unix_endings(text@),
{
    let mut out = String::new();
    let mut pending_cr = false;
    for c in iter: text.chars()
        invariant
            iter.seq() == text@,
            pending_cr ==> iter.index() >= 1 && text@[iter.index() - 1] == '\r' && out@
                == kept_upto(text@, iter.index() - 1),
            !pending_cr ==> out@ == kept_upto(text@, iter.index()),
    {
        let ghost i = iter.index();
        if pending_cr {
            if c == '\n' {
                assert(kept_upto(text@, i) == kept_upto(text@, i - 1));
                out.push('\n');
                pending_cr = false;
            } else {
                assert(kept_upto(text@, i) == kept_upto(text@, i - 1).push('\r'));
                out.push('\r');
                if c != '\r' {
                    out.push(c);
                    pending_cr = false;
                }
            }
        } else if c == '\r' {
            pending_cr = true;
        } else {
            out.push(c);
        }
    }
    if pending_cr {
        out.push('\r');
    }
    out
}

/// Replaces the line feeds at the end of a text, if any, by exactly one.
pub fn end_with_newline(text: &str) -> (r: String)
    ensures
        r@ == without_trailing_newlines(text@).push('\n'),
{
    let mut out = String::new();
    let mut held = String::new();
    for c in iter: text.chars()
        invariant
            iter.seq() == text@,
            out@ + held@ == text@.take(iter.index()),
            forall|k: int| 0 <= k < held@.len() ==> held@[k] == '\n',
            out@.len() > 0 ==> out@.last() != '\n',
    {
        assert(text@.take(iter.index() + 1) =~= text@.take(iter.index()).push(c));
        if c == '\n' {
            held.push('\n');
        } else {
            out.append(held.as_str());
            out.push(c);
            held = String::new();
        }
    }
    proof {
        assert(text@.take(text@.len() as int) =~= text@);
        lemma_trailing_newlines_dropped(out@, held@);
    }
    out.push('\n');
    out
}

/// Brings key material into its normal form.
pub fn normalize_key(key_data: &str) -> (r: String)
    ensures
        r@ == normalized_key(key_data@),
{
    let unix = unix_line_endings(key_data);
    end_with_newline(unix.as_str())
}

/// Dropping the trailing line feeds of a text that was extended by line feeds
/// only gives back the text, if that did not end in a line feed itself.
proof fn lemma_trailing_newlines_dropped(body: Seq<char>, feeds: Seq<char>)
    requires
        forall|k: int| 0 <= k < feeds.len() ==> feeds[k] == '\n',
        body.len() > 0 ==> body.last() != '\n',
    ensures
        without_trailing_newlines(body + feeds) == body,
    decreases feeds.len(),
{
    if feeds.len() == 0 {
        assert(body + feeds =~= body);
    } else {
        assert((body + feeds).drop_last() =~= body + feeds.drop_last());
        lemma_trailing_newlines_dropped(body, feeds.drop_last());
    }
}

/// What remains when trailing line feeds are dropped is a prefix of the text,
/// it does not end in a line feed, and only line feeds were dropped.
proof fn lemma_without_trailing_is_prefix(s: Seq<char>)
    ensures
        without_trailing_newlines(s).len() <= s.len(),
        without_trailing_newlines(s) == s.take(without_trailing_newlines(s).len() as int),
        without_trailing_newlines(s).len() > 0 ==> without_trailing_newlines(s).last() != '\n',
        forall|k: int| without_trailing_newlines(s).len() <= k < s.len() ==> s[k] == '\n',
    decreases s.len(),
{
    if s.len() > 0 && s.last() == '\n' {
        lemma_without_trailing_is_prefix(s.drop_last());
        let kept = without_trailing_newlines(s.drop_last());
        assert(s.drop_last().take(kept.len() as int) =~= s.take(kept.len() as int));
        assert forall|k: int| kept.len() <= k < s.len() implies s[k] == '\n' by {
            if k < s.len() - 1 {
                assert(s.drop_last()[k] == '\n');
            }
        }
    } else {
        assert(s.take(s.len() as int) =~= s);
    }
}

/// The first `n` characters, converted, hold no Windows line ending, and they
/// end in a carriage return only where the text has one at `n - 1` that starts
/// no Windows line ending.
proof fn lemma_kept_has_no_crlf(s: Seq<char>, n: int)
    requires
        0 <= n <= s.len(),
        forall|i: int| !#[trigger] is_cr_before_crlf(s, i),
    ensures
        forall|j: int| !#[trigger] is_crlf_at(kept_upto(s, n), j),
        kept_upto(s, n).len() > 0 && kept_upto(s, n).last() == '\r' ==> n >= 1 && s[n - 1] == '\r'
            && !is_crlf_at(s, n - 1),
    decreases n,
{
    if n > 0 {
        lemma_kept_has_no_crlf(s, n - 1);
        let init = kept_upto(s, n - 1);
        if is_crlf_at(s, n - 1) {
            if init.len() > 0 && init.last() == '\r' {
                assert(is_cr_before_crlf(s, n - 2));
            }
        } else {
            let now = init.push(s[n - 1]);
            assert forall|j: int| !#[trigger] is_crlf_at(now, j) by {
                if is_crlf_at(now, j) {
                    if j + 1 < init.len() {
                        assert(is_crlf_at(init, j));
                    } else {
                        assert(init.last() == '\r' && s[n - 1] == '\n');
                        assert(is_crlf_at(s, n - 2));
                    }
                }
            }
        }
    }
}

/// The normal form ends in exactly one line feed.
pub proof fn lemma_normalized_ends_with_one_newline(key: Seq<char>)
    ensures
        normalized_key(key).len() >= 1,
        normalized_key(key).last() == '\n',
        normalized_key(key).len() >= 2 ==> normalized_key(key)[normalized_key(key).len() - 2]
            != '\n',
{
    lemma_without_trailing_is_prefix(unix_endings(key));
}

/// The normal form holds no Windows line ending, for key material that has no
/// carriage return before a Windows line ending and none at its very end.
pub proof fn lemma_normalized_has_unix_endings(key: Seq<char>)
    requires
        forall|i: int| !#[trigger] is_cr_before_crlf(key, i),
        key.len() > 0 ==> key.last() != '\r',
    ensures
        forall|j: int| !#[trigger] is_crlf_at(normalized_key(key), j),
{
    let unix = unix_endings(key);
    let body = without_trailing_newlines(unix);
    lemma_kept_has_no_crlf(key, key.len() as int);
    lemma_without_trailing_is_prefix(unix);
    assert forall|j: int| !#[trigger] is_crlf_at(body.push('\n'), j) by {
        if is_crlf_at(body.push('\n'), j) {
            if j + 1 < body.len() {
                assert(is_crlf_at(unix, j));
            } else {
                assert(body.last() == '\r');
                if body.len() < unix.len() {
                    assert(is_crlf_at(unix, body.len() - 1));
                }
            }
        }
    }
}

/// Key material whose carriage returns all start a Windows line ending has
/// no carriage return left in its normal form.
pub proof fn lemma_normalized_has_no_carriage_return(key: Seq<char>)
    requires
        forall|i: int| 0 <= i < key.len() && key[i] == '\r' ==> #[trigger] is_crlf_at(key, i),
    ensures
        forall|j: int| 0 <= j < normalized_key(key).len() ==> normalized_key(key)[j] != '\r',
{
    lemma_kept_has_no_carriage_return(key, key.len() as int);
    lemma_without_trailing_is_prefix(unix_endings(key));
}

proof fn lemma_kept_has_no_carriage_return(s: Seq<char>, n: int)
    requires
        0 <= n <= s.len(),
        forall|i: int| 0 <= i < s.len() && s[i] == '\r' ==> #[trigger] is_crlf_at(s, i),
    ensures
        forall|j: int| 0 <= j < kept_upto(s, n).len() ==> kept_upto(s, n)[j] != '\r',
    decreases n,
{
    if n > 0 {
        lemma_kept_has_no_carriage_return(s, n - 1);
        let init = kept_upto(s, n - 1);
        assert forall|j: int| 0 <= j < kept_upto(s, n).len() implies kept_upto(s, n)[j]
            != '\r' by {
            if j < init.len() {
                assert(init[j] != '\r');
            } else {
                assert(!is_crlf_at(s, n - 1));
            }
        }
    }
}

} // verus!
