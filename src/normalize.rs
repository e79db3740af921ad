//! Address key normalization: the canonical `street:identifier` text that
//! joins feature records to transaction rows.
use vstd::prelude::*;
use vstd::string::*;

verus! {

/// What `char::is_alphanumeric` answers for a character (Unicode alphabetic or numeric).
pub uninterp spec fn alphanumeric(c: char) -> bool;

/// Relies on `char::is_alphanumeric`, whose answer depends on the character
/// alone; on ASCII it holds exactly of the letters and the digits.
#[verifier::external_body]
fn is_alnum(c: char) -> (r: bool)
    ensures
        r == alphanumeric(c),
        c <= '\x7f' ==> (r <==> ('a' <= c <= 'z' || 'A' <= c <= 'Z' || '0' <= c <= '9')),
{
    c.is_alphanumeric()
}

/// Relies on `String::push`: the character is appended at the end.
#[verifier::external_body]
fn push_char(s: &mut String, c: char)
    ensures
        final(s)@ == old(s)@.push(c),
{
    s.push(c);
}

/// The scan that drops entity runs. It returns the text kept so far and the
/// text of an entity run that is still open (an `&` with no `;` yet).
pub open spec fn entity_scan(s: Seq<char>) -> (Seq<char>, Seq<char>)
    decreases s.len(),
{
    if s.len() == 0 {
        (Seq::empty(), Seq::empty())
    } else {
        let (kept, open) = entity_scan(s.drop_last());
        let c = s.last();
        if c == '&' || open.len() > 0 {
            if c == ';' {
                (kept, Seq::empty())
            } else {
                (kept, open.push(c))
            }
        } else {
            (kept.push(c), Seq::empty())
        }
    }
}

/// Text with every run from an `&` up to and including the next `;` removed;
/// a run that the text ends inside is kept as it was.
pub open spec fn without_entities(s: Seq<char>) -> Seq<char> {
    entity_scan(s).0 + entity_scan(s).1
}

/// A character that survives punctuation stripping.
pub open spec fn kept_char(c: char) -> bool {
    alphanumeric(c) || c == ' '
}

/// Text with every character that is neither alphanumeric nor a space removed.
pub open spec fn without_punctuation(s: Seq<char>) -> Seq<char>
    decreases s.len(),
{
    if s.len() == 0 {
        Seq::empty()
    } else {
        let rest = without_punctuation(s.drop_last());
        if kept_char(s.last()) {
            rest.push(s.last())
        } else {
            rest
        }
    }
}

/// ASCII lowercase of one character: `'A'..='Z'` map to `'a'..='z'`, all others stay.
pub open spec fn lower_char(c: char) -> char {
    if 'A' <= c && c <= 'Z' {
        ((c as u32) + 32) as char
    } else {
        c
    }
}

/// ASCII lowercase of a text, character by character.
pub open spec fn lower_text(s: Seq<char>) -> Seq<char> {
    s.map_values(|c: char| lower_char(c))
}

/// One normalized component of an address key.
pub open spec fn norm_part(s: Seq<char>) -> Seq<char> {
    lower_text(without_punctuation(without_entities(s)))
}

/// The address key of a street and a house identifier.
pub open spec fn address_key(street: Seq<char>, houseid: Seq<char>) -> Seq<char> {
    norm_part(street) + seq![':'] + norm_part(houseid)
}

/// Drops entity escape runs (`&...;`); an unterminated run is kept verbatim.
pub fn remove_entities(s: &str) -> (r: String)
    ensures
        r@ == without_entities(s@),
{
    let n = s.unicode_len();
    let mut next = String::new();
    let mut buf = String::new();
    let mut i: usize = 0;
    while i < n
        invariant
            n == s@.len(),
            i <= n,
            next@ == entity_scan(s@.take(i as int)).0,
            buf@ == entity_scan(s@.take(i as int)).1,
        decreases n - i,
    {
        let c = s.get_char(i);
        assert(s@.take(i as int + 1).drop_last() =~= s@.take(i as int));
        if c == '&' || buf.unicode_len() > 0 {
            if c == ';' {
                buf = String::new();
            } else {
                push_char(&mut buf, c);
            }
        } else {
            push_char(&mut next, c);
        }
        i = i + 1;
    }
    assert(s@.take(n as int) =~= s@);
    next.append(buf.as_str());
    next
}

/// Keeps only alphanumeric characters and spaces.
pub fn remove_punctuation(s: &str) -> (r: String)
    ensures
        r@ == without_punctuation(s@),
{
    let n = s.unicode_len();
    let mut out = String::new();
    let mut i: usize = 0;
    while i < n
        invariant
            n == s@.len(),
            i <= n,
            out@ == without_punctuation(s@.take(i as int)),
        decreases n - i,
    {
        let c = s.get_char(i);
        assert(s@.take(i as int + 1).drop_last() =~= s@.take(i as int));
        if is_alnum(c) || c == ' ' {
            push_char(&mut out, c);
        }
        i = i + 1;
    }
    assert(s@.take(n as int) =~= s@);
    out
}

/// ASCII lowercase of one character.
pub fn to_lower_char(c: char) -> (r: char)
    ensures
        r == lower_char(c),
{
    if 'A' <= c && c <= 'Z' {
        ((c as u8) + 32) as char
    } else {
        c
    }
}

/// ASCII lowercase of a text; other characters are kept.
pub fn to_lower_text(s: &str) -> (r: String)
    ensures
        r@ == lower_text(s@),
{
    let n = s.unicode_len();
    let mut out = String::new();
    let mut i: usize = 0;
    while i < n
        invariant
            n == s@.len(),
            i <= n,
            out@ =~= lower_text(s@.take(i as int)),
        decreases n - i,
    {
        let c = s.get_char(i);
        let l = to_lower_char(c);
        push_char(&mut out, l);
        i = i + 1;
        assert(out@ =~= lower_text(s@.take(i as int)));
    }
    assert(s@.take(n as int) =~= s@);
    out
}

/// Normalizes one component: entities dropped, punctuation stripped, lowercased.
pub fn norm_part_of(s: &str) -> (r: String)
    ensures
        r@ == norm_part(s@),
{
    let a = remove_entities(s);
    let b = remove_punctuation(a.as_str());
    to_lower_text(b.as_str())
}

/// The join key `"{street}:{identifier}"`, each part normalized.
pub fn norm_houseid(street: &str, houseid: &str) -> (r: String)
    ensures
        r@ == address_key(street@, houseid@),
{
    let mut full = norm_part_of(street);
    push_char(&mut full, ':');
    let id = norm_part_of(houseid);
    full.append(id.as_str());
    full
}

} // verus!
