use vstd::prelude::*;

verus! {

/// Whether `c` has the Unicode `White_Space` property.
pub uninterp spec fn white_space(c: char) -> bool;

/// The upper-case mapping of `c`, one or more characters.
pub uninterp spec fn upper_of(c: char) -> Seq<char>;

/// Relies on `char::is_whitespace`: true exactly for characters with the
/// Unicode `White_Space` property, among them the ASCII space.
#[verifier::external_body]
fn is_white_space(c: char) -> (r: bool)
    ensures
        r == white_space(c),
        c == ' ' ==> r,
{
    c.is_whitespace()
}

/// Relies on `char::to_uppercase`: the characters of the upper-case mapping of `c`.
#[verifier::external_body]
fn uppercase(c: char) -> (r: String)
    ensures
        r@ == upper_of(c),
{
    c.to_uppercase().collect()
}

/// Relies on `String::push`: appends one character.
#[verifier::external_body]
fn push_char(s: &mut String, c: char)
    ensures
        final(s)@ == old(s)@.push(c),
{
    s.push(c)
}

/// Some position before `i` is not white space, by the flags `ws`.
pub open spec fn word_before(ws: Seq<bool>, i: int) -> bool {
    exists|j: int| 0 <= j < i && !(#[trigger] ws[j])
}

/// Title case of the first `k` characters of `s`, where `ws[i]` tells whether
/// `s[i]` is white space and `up[i]` is its upper-case form: white space is
/// dropped, each word keeps its characters but for the first, which is
/// replaced by its upper-case form, and a single space stands between two words.
pub open spec fn title_with(s: Seq<char>, ws: Seq<bool>, up: Seq<Seq<char>>, k: nat) -> Seq<char>
    decreases k,
{
    if k == 0 {
        seq![]
    } else {
        let i = k - 1;
        let before = title_with(s, ws, up, (k - 1) as nat);
        if ws[i] {
            before
        } else if i == 0 || ws[i - 1] {
            before + (if word_before(ws, i) {
                seq![' ']
            } else {
                seq![]
            }) + up[i]
        } else {
            before.push(s[i])
        }
    }
}

/// Title case of `s` by the Unicode white-space property and upper-case mapping.
pub open spec fn title_of(s: Seq<char>) -> Seq<char> {
    title_with(
        s,
        Seq::new(s.len(), |i: int| white_space(s[i])),
        Seq::new(s.len(), |i: int| upper_of(s[i])),
        s.len(),
    )
}

/// The strings of `v`, as character sequences.
pub open spec fn strings_of(v: Seq<String>) -> Seq<Seq<char>> {
    Seq::new(v.len(), |i: int| v[i]@)
}

/// Title case of `s`, where `spaces[i]` tells whether its `i`-th character is
/// white space and `uppers[i]` is that character's upper-case form.
pub fn title_case_with(s: &str, spaces: &Vec<bool>, uppers: &Vec<String>) -> (r: String)
    requires
        spaces@.len() == s@.len(),
        uppers@.len() == s@.len(),
    ensures
        r@ == title_with(s@, spaces@, strings_of(uppers@), s@.len()),
{
    let ghost up = strings_of(uppers@);
    let n = s.unicode_len();
    let mut out = String::new();
    let mut any_word = false;
    let mut i: usize = 0;
    while i < n
        invariant
            n == s@.len(),
            spaces@.len() == n,
            uppers@.len() == n,
            up == strings_of(uppers@),
            i <= n,
            out@ == title_with(s@, spaces@, up, i as nat),
            any_word == word_before(spaces@, i as int),
        decreases n - i,
    {
        if !spaces[i] {
            if i == 0 || spaces[i - 1] {
                if any_word {
                    proof {
                        reveal_strlit(" ");
                    }
                    out.append(" ");
                }
                out.append(uppers[i].as_str());
            } else {
                push_char(&mut out, s.get_char(i));
            }
            assert(word_before(spaces@, i + 1)) by {
                assert(!spaces@[i as int]);
            }
            any_word = true;
        } else {
            assert(word_before(spaces@, i + 1) == word_before(spaces@, i as int)) by {
                if word_before(spaces@, i + 1) {
                    let j = choose|j: int| 0 <= j < i + 1 && !(#[trigger] spaces@[j]);
                    assert(j != i);
                }
            }
        }
        i = i + 1;
    }
    out
}

/// The words of `s`, each with its first character upper-cased, joined by single spaces.
pub fn title_case(s: String) -> (r: String)
    ensures
        r@ == title_of(s@),
{
    let text = s.as_str();
    let n = text.unicode_len();
    let mut spaces: Vec<bool> = Vec::new();
    let mut uppers: Vec<String> = Vec::new();
    let mut i: usize = 0;
    while i < n
        invariant
            text@ == s@,
            n == s@.len(),
            i <= n,
            spaces@.len() == i,
            uppers@.len() == i,
            forall|k: int| 0 <= k < i ==> #[trigger] spaces@[k] == white_space(s@[k]),
            forall|k: int| 0 <= k < i ==> #[trigger] uppers@[k]@ == upper_of(s@[k]),
        decreases n - i,
    {
        let c = text.get_char(i);
        spaces.push(is_white_space(c));
        uppers.push(uppercase(c));
        i = i + 1;
    }
    let r = title_case_with(text, &spaces, &uppers);
    assert(spaces@ =~= Seq::new(s@.len(), |k: int| white_space(s@[k])));
    assert(strings_of(uppers@) =~= Seq::new(s@.len(), |k: int| upper_of(s@[k])));
    r
}

} // verus!
