//! Splitting the extra Chrome command-line flags, given as one
//! whitespace-separated string, into the individual flags.
use vstd::prelude::*;

verus! {

/// Unicode `White_Space`, the set that `char::is_whitespace` recognises.
pub open spec fn is_space(c: char) -> bool {
    let n = c as u32;
    ||| 0x09 <= n <= 0x0D
    ||| n == 0x20
    ||| n == 0x85
    ||| n == 0xA0
    ||| n == 0x1680
    ||| 0x2000 <= n <= 0x200A
    ||| n == 0x2028
    ||| n == 0x2029
    ||| n == 0x202F
    ||| n == 0x205F
    ||| n == 0x3000
}

/// The maximal runs of non-space characters of `s`, in order.
/// Defined by the last character: a space closes nothing new, a non-space
/// either extends the word that the previous character belongs to, or
/// starts a new one.
pub open spec fn words(s: Seq<char>) -> Seq<Seq<char>>
    decreases s.len(),
{
    if s.len() == 0 {
        seq![]
    } else {
        let prefix = s.drop_last();
        let c = s.last();
        let before = words(prefix);
        if is_space(c) {
            before
        } else if prefix.len() > 0 && !is_space(prefix.last()) {
            before.update(before.len() - 1, before.last().push(c))
        } else {
            before.push(seq![c])
        }
    }
}

/// The views of a sequence of strings.
pub open spec fn string_views(v: Seq<String>) -> Seq<Seq<char>> {
    v.map_values(|w: String| w@)
}

/// The characters of `s` that are not spaces, in order.
pub open spec fn non_space(s: Seq<char>) -> Seq<char> {
    s.filter(|c: char| !is_space(c))
}

/// All words of `ws` put one after the other.
pub open spec fn concat_all(ws: Seq<Seq<char>>) -> Seq<char>
    decreases ws.len(),
{
    if ws.len() == 0 {
        seq![]
    } else {
        concat_all(ws.drop_last()) + ws.last()
    }
}

/// Whether `c` is a space character, as `char::is_whitespace` decides.
pub fn is_space_char(c: char) -> (b: bool)
    ensures
        b == is_space(c),
{
    let n = c as u32;
    (0x09 <= n && n <= 0x0D) || n == 0x20 || n == 0x85 || n == 0xA0 || n == 0x1680 || (0x2000
        <= n && n <= 0x200A) || n == 0x2028 || n == 0x2029 || n == 0x202F || n == 0x205F || n
        == 0x3000
}

/// Splits `text` at runs of whitespace, dropping empty pieces: the flags
/// that the `CHROME_FLAGS` value passes on to Chrome.
pub fn parse_chrome_flags(text: &str) -> (flags: Vec<String>)
    ensures
        string_views(flags@) == words(text@),
{
    let len = text.unicode_len();
    let mut flags: Vec<String> = Vec::new();
    let mut in_word = false;
    let mut start: usize = 0;
    let mut i: usize = 0;
    while i < len
        invariant
            len == text@.len(),
            i <= len,
            start <= i,
            in_word ==> i > 0 && !is_space(text@[i - 1]),
            !in_word ==> (i == 0 || is_space(text@[i - 1])),
            in_word ==> forall|k: int| start <= k < i ==> !is_space(#[trigger] text@[k]),
            in_word ==> start < i,
            in_word ==> words(text@.take(i as int)) == string_views(flags@).push(
                text@.subrange(start as int, i as int),
            ),
            !in_word ==> words(text@.take(i as int)) == string_views(flags@),
        decreases len - i,
    {
        let c = text.get_char(i);
        let ghost prefix = text@.take(i as int);
        assert(text@.take(i + 1).drop_last() == prefix);
        assert(text@.take(i + 1).last() == c);
        if is_space_char(c) {
            if in_word {
                let piece = text.substring_char(start, i);
                let word = String::from_str(piece);
                proof {
                    assert(string_views(flags@.push(word)) == string_views(flags@).push(word@));
                }
                flags.push(word);
                in_word = false;
            }
        } else {
            if in_word {
                proof {
                    let before = words(prefix);
                    assert(prefix.last() == text@[i - 1]);
                    assert(before.last() == text@.subrange(start as int, i as int));
                    assert(text@.subrange(start as int, i as int).push(c) == text@.subrange(
                        start as int,
                        i + 1,
                    ));
                    assert(before.update(before.len() - 1, before.last().push(c))
                        == string_views(flags@).push(text@.subrange(start as int, i + 1)));
                }
            } else {
                proof {
                    if i > 0 {
                        assert(prefix.last() == text@[i - 1]);
                    }
                    assert(text@.subrange(i as int, i + 1) == seq![c]);
                }
                start = i;
                in_word = true;
            }
        }
        i = i + 1;
    }
    assert(text@.take(len as int) == text@);
    if in_word {
        let piece = text.substring_char(start, len);
        let word = String::from_str(piece);
        proof {
            assert(string_views(flags@.push(word)) == string_views(flags@).push(word@));
        }
        flags.push(word);
    }
    flags
}

/// The flags are what is left of the text between runs of whitespace: none
/// is empty, none holds a space character, and one after the other they
/// give back every non-space character of the text, in order.
pub proof fn law_flags_are_words(s: Seq<char>)
    ensures
        forall|i: int| 0 <= i < words(s).len() ==> #[trigger] words(s)[i].len() > 0,
        forall|i: int, j: int|
            0 <= i < words(s).len() && 0 <= j < words(s)[i].len() ==> !is_space(
                #[trigger] words(s)[i][j],
            ),
        concat_all(words(s)) == non_space(s),
        s.len() > 0 && !is_space(s.last()) ==> words(s).len() > 0,
    decreases s.len(),
{
    reveal_with_fuel(Seq::filter, 2);
    if s.len() > 0 {
        let prefix = s.drop_last();
        let c = s.last();
        let before = words(prefix);
        law_flags_are_words(prefix);
        assert(s.filter(|c: char| !is_space(c)) == (if !is_space(c) {
            prefix.filter(|c: char| !is_space(c)).push(c)
        } else {
            prefix.filter(|c: char| !is_space(c))
        }));
        if is_space(c) {
        } else if prefix.len() > 0 && !is_space(prefix.last()) {
            let n = before.len() - 1;
            let after = before.update(n, before.last().push(c));
            assert(words(s) == after);
            assert(after.drop_last() =~= before.drop_last());
            assert(concat_all(after) == concat_all(before.drop_last()) + before.last().push(c));
            assert(concat_all(before) == concat_all(before.drop_last()) + before.last());
            assert(concat_all(after) =~= concat_all(before).push(c));
            assert forall|i: int, j: int|
                0 <= i < after.len() && 0 <= j < after[i].len() implies !is_space(
                #[trigger] after[i][j],
            ) by {
                if i == n && j == before.last().len() {
                } else if i == n {
                    assert(after[i][j] == before[n][j]);
                }
            }
        } else {
            let after = before.push(seq![c]);
            assert(words(s) == after);
            assert(after.drop_last() =~= before);
            assert(concat_all(after) =~= concat_all(before).push(c));
            assert forall|i: int, j: int|
                0 <= i < after.len() && 0 <= j < after[i].len() implies !is_space(
                #[trigger] after[i][j],
            ) by {
                if i < before.len() {
                    assert(after[i] == before[i]);
                }
            }
        }
    } else {
        assert(non_space(s) =~= seq![]);
    }
}

/// Tab, line feed, vertical tab, form feed, carriage return and space
/// separate flags; letters, digits and the characters that flags are
/// written with (`-`, `=`, `,`, `.`, `/`, `:`) do not.
pub proof fn law_space_characters(c: char)
    ensures
        (9 <= c as u32 <= 13 || c == ' ') ==> is_space(c),
        ('a' <= c <= 'z' || 'A' <= c <= 'Z' || '0' <= c <= '9') ==> !is_space(c),
        (c == '-' || c == '=' || c == ',' || c == '.' || c == '/' || c == ':') ==> !is_space(c),
{
}

} // verus!
