//! Text handling for task names and confirmations: splitting off surrounding
//! white space, joining argument words, and the checks made on typed lines.
use vstd::prelude::*;

verus! {

/// The characters that carry Unicode's `White_Space` property.
pub open spec fn white_space(c: char) -> bool {
    ('\u{9}' <= c && c <= '\u{d}') || c == ' ' || c == '\u{85}' || c == '\u{a0}'
        || c == '\u{1680}' || ('\u{2000}' <= c && c <= '\u{200a}') || c == '\u{2028}'
        || c == '\u{2029}' || c == '\u{202f}' || c == '\u{205f}' || c == '\u{3000}'
}

/// `s` without its leading white space.
pub open spec fn trim_start_of(s: Seq<char>) -> Seq<char>
    decreases s.len(),
{
    if s.len() > 0 && white_space(s[0]) {
        trim_start_of(s.drop_first())
    } else {
        s
    }
}

/// `s` without its trailing white space.
pub open spec fn trim_end_of(s: Seq<char>) -> Seq<char>
    decreases s.len(),
{
    if s.len() > 0 && white_space(s.last()) {
        trim_end_of(s.drop_last())
    } else {
        s
    }
}

/// `s` without white space at either end.
pub open spec fn trimmed(s: Seq<char>) -> Seq<char> {
    trim_end_of(trim_start_of(s))
}

/// The words joined into one text, one space between neighbours.
pub open spec fn joined(words: Seq<Seq<char>>) -> Seq<char>
    decreases words.len(),
{
    if words.len() == 0 {
        Seq::empty()
    } else if words.len() == 1 {
        words[0]
    } else {
        joined(words.drop_last()) + seq![' '] + words.last()
    }
}

/// The phrase that a user types to confirm that every task is deleted.
pub open spec fn reset_phrase() -> Seq<char> {
    "delete everything"@
}

/// Whether `c` is white space in Unicode's sense.
pub fn is_white_space(c: char) -> (r: bool)
    ensures
        r == white_space(c),
{
    ('\u{9}' <= c && c <= '\u{d}') || c == ' ' || c == '\u{85}' || c == '\u{a0}'
        || c == '\u{1680}' || ('\u{2000}' <= c && c <= '\u{200a}') || c == '\u{2028}'
        || c == '\u{2029}' || c == '\u{202f}' || c == '\u{205f}' || c == '\u{3000}'
}

proof fn lemma_trim_start_step(s: Seq<char>, i: int)
    requires
        0 <= i < s.len(),
        white_space(s[i]),
    ensures
        trim_start_of(s.subrange(i, s.len() as int)) == trim_start_of(
            s.subrange(i + 1, s.len() as int),
        ),
{
    assert(s.subrange(i, s.len() as int).drop_first() =~= s.subrange(i + 1, s.len() as int));
}

proof fn lemma_trim_end_step(s: Seq<char>, j: int)
    requires
        0 < j <= s.len(),
        white_space(s[j - 1]),
    ensures
        trim_end_of(s.subrange(0, j)) == trim_end_of(s.subrange(0, j - 1)),
{
    assert(s.subrange(0, j).drop_last() =~= s.subrange(0, j - 1));
}

/// The text with white space removed at both ends.
pub fn trim(s: &str) -> (r: String)
    ensures
        r@ == trimmed(s@),
{
    let n = s.unicode_len();
    let mut i: usize = 0;
    proof {
        assert(s@.subrange(0, n as int) =~= s@);
    }
    while i < n && is_white_space(s.get_char(i))
        invariant
            0 <= i <= n,
            n == s@.len(),
            trim_start_of(s@) == trim_start_of(s@.subrange(i as int, n as int)),
        decreases n - i,
    {
        proof {
            lemma_trim_start_step(s@, i as int);
        }
        i = i + 1;
    }
    let ghost rest = s@.subrange(i as int, n as int);
    proof {
        if i < n {
            assert(rest[0] == s@[i as int]);
        }
        assert(trim_start_of(s@) == rest);
    }
    let mut j: usize = n;
    proof {
        assert(rest.subrange(0, (j - i) as int) =~= rest);
    }
    while j > i && is_white_space(s.get_char(j - 1))
        invariant
            i <= j <= n,
            n == s@.len(),
            rest == s@.subrange(i as int, n as int),
            trim_end_of(rest) == trim_end_of(rest.subrange(0, (j - i) as int)),
        decreases j,
    {
        proof {
            lemma_trim_end_step(rest, (j - i) as int);
        }
        j = j - 1;
    }
    proof {
        let kept = rest.subrange(0, (j - i) as int);
        if j > i {
            assert(kept.last() == s@[j - 1]);
        }
        assert(trim_end_of(kept) == kept);
        assert(kept =~= s@.subrange(i as int, j as int));
    }
    String::from_str(s.substring_char(i, j))
}

/// The task name carried by the argument words: `None` when there are none,
/// in which case the name has to be asked for.
pub fn get_string(str: Vec<String>) -> (r: Option<String>)
    ensures
        str@.len() == 0 <==> r is None,
        r matches Some(name) ==> name@ == joined(str@.map_values(|w: String| w@)),
{
    if str.len() == 0 {
        return None;
    }
    let mut out = str[0].clone();
    let mut k: usize = 1;
    while k < str.len()
        invariant
            1 <= k <= str@.len(),
            out@ == joined(str@.subrange(0, k as int).map_values(|w: String| w@)),
        decreases str@.len() - k,
    {
        let ghost before = str@.subrange(0, k as int).map_values(|w: String| w@);
        out.append(" ");
        out.append(str[k].as_str());
        proof {
            reveal_strlit(" ");
            let after = str@.subrange(0, k + 1).map_values(|w: String| w@);
            assert(after.drop_last() =~= before);
            assert(out@ =~= joined(after));
        }
        k = k + 1;
    }
    proof {
        assert(str@.subrange(0, k as int) =~= str@);
    }
    Some(out)
}

/// What a typed line gives as a task name: the line without surrounding
/// white space, or `None` when nothing else is on it and the question has to
/// be asked again.
pub fn accept_name(line: &str) -> (r: Option<String>)
    ensures
        trimmed(line@).len() == 0 <==> r is None,
        r matches Some(name) ==> name@ == trimmed(line@),
{
    let t = trim(line);
    if t.as_str().unicode_len() == 0 {
        None
    } else {
        Some(t)
    }
}

/// Whether a typed line, once trimmed, is exactly the confirmation phrase.
pub fn confirms_reset(line: &str) -> (r: bool)
    ensures
        r == (trimmed(line@) == reset_phrase()),
{
    let t = trim(line);
    is_reset_phrase(t.as_str())
}

/// Whether `t` is exactly the confirmation phrase, letter for letter.
pub fn is_reset_phrase(t: &str) -> (r: bool)
    ensures
        r == (t@ == reset_phrase()),
{
    let phrase = "delete everything";
    proof {
        reveal_strlit("delete everything");
    }
    let n = t.unicode_len();
    if n != phrase.unicode_len() {
        return false;
    }
    let mut i: usize = 0;
    while i < n
        invariant
            0 <= i <= n,
            n == t@.len(),
            n == phrase@.len(),
            phrase@ == reset_phrase(),
            forall|k: int| 0 <= k < i ==> t@[k] == phrase@[k],
        decreases n - i,
    {
        if t.get_char(i) != phrase.get_char(i) {
            return false;
        }
        i = i + 1;
    }
    proof {
        assert(t@ =~= phrase@);
    }
    true
}

} // verus!
