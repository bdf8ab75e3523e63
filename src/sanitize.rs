//! String clean-up applied to the text fields of dump rows.
use vstd::prelude::*;

verus! {

/// `s` with every occurrence of `pat` replaced by `rep`, scanning from the
/// left; a replaced occurrence is never looked at again.
pub open spec fn replace_all(s: Seq<char>, pat: Seq<char>, rep: Seq<char>) -> Seq<char>
    decreases s.len(),
{
    if s.len() == 0 {
        s
    } else if 0 < pat.len() <= s.len() && s.take(pat.len() as int) == pat {
        rep + replace_all(s.skip(pat.len() as int), pat, rep)
    } else {
        seq![s[0]] + replace_all(s.skip(1), pat, rep)
    }
}

/// `s` with every run of two or more spaces shortened to one space.
pub open spec fn spaces_collapsed(s: Seq<char>) -> Seq<char>
    decreases s.len(),
{
    if s.len() == 0 {
        s
    } else if s.len() >= 2 && s[0] == ' ' && s[1] == ' ' {
        spaces_collapsed(s.skip(1))
    } else {
        seq![s[0]] + spaces_collapsed(s.skip(1))
    }
}

/// The clean-up of a human-readable field: `;` dropped, line breaks turned
/// into spaces, `ё` written as `е`, and the escapes `\"` and `\'` undone.
pub open spec fn wrong_chars_removed(s: Seq<char>) -> Seq<char> {
    let s1 = replace_all(s, seq![';'], seq![]);
    let s2 = replace_all(s1, seq!['\n'], seq![' ']);
    let s3 = replace_all(s2, seq!['\u{451}'], seq!['\u{435}']);
    let s4 = replace_all(s3, seq!['\\', '"'], seq!['"']);
    replace_all(s4, seq!['\\', '\''], seq!['\''])
}

/// A language code with `-` and `~` taken out, before lower-casing.
pub open spec fn lang_stripped(s: Seq<char>) -> Seq<char> {
    replace_all(replace_all(s, seq!['-'], seq![]), seq!['~'], seq![])
}

/// An annotation body with `<br>` and the two-character escape `\n` turned
/// into line breaks, `\"` unescaped, and runs of spaces collapsed.
pub open spec fn annotation_prepared(s: Seq<char>) -> Seq<char> {
    let s1 = replace_all(s, seq!['<', 'b', 'r', '>'], seq!['\n']);
    let s2 = replace_all(s1, seq!['\\', 'n'], seq!['\n']);
    let s3 = replace_all(s2, seq!['\\', '"'], seq!['"']);
    spaces_collapsed(s3)
}

/// What `str::to_lowercase` returns for a string.
pub uninterp spec fn lowercase_of(s: Seq<char>) -> Seq<char>;

/// What ammonia's cleaner, with its default settings but for `tag` being
/// the one tag it keeps, returns for an HTML fragment.
pub uninterp spec fn html_cleaned(s: Seq<char>, tag: Seq<char>) -> Seq<char>;

/// Relies on `str::to_lowercase`: its result depends on the characters alone.
#[verifier::external_body]
fn lowercase(s: &str) -> (r: String)
    ensures
        r@ == lowercase_of(s@),
{
    s.to_lowercase()
}

/// Relies on ammonia's `Builder::clean` (default builder, `tag` as the only
/// allowed tag): the cleaned fragment depends on the input and the tag alone.
/// The builder panics when an allowed tag is one whose content it removes
/// (`script`, `style`), so the tag is the one that annotations keep.
#[verifier::external_body]
fn clean_html(s: &str, tag: &str) -> (r: String)
    requires
        tag@ == kept_tag(),
    ensures
        r@ == html_cleaned(s@, tag@),
{
    ammonia::Builder::new().tags(std::collections::HashSet::from([tag])).clean(s).to_string()
}

/// Relies on `String: FromIterator<&char>`: the string holds the characters
/// in order.
#[verifier::external_body]
fn string_from_chars(v: &Vec<char>) -> (r: String)
    ensures
        r@ == v@,
{
    v.iter().collect()
}

/// The characters of `s`, in order.
fn chars_of(s: &str) -> (r: Vec<char>)
    ensures
        r@ == s@,
{
    let mut r: Vec<char> = Vec::new();
    for c in it: s.chars()
        invariant
            r@ == it.seq().take(it.index() as int),
    {
        r.push(c);
    }
    r
}

/// Whether `pat` is non-empty and occurs in `s` at position `i`.
fn occurs_at(s: &Vec<char>, i: usize, pat: &Vec<char>) -> (r: bool)
    requires
        i <= s.len(),
    ensures
        r == (0 < pat.len() <= s@.len() - i && s@.skip(i as int).take(pat.len() as int) == pat@),
{
    if pat.len() == 0 || pat.len() > s.len() - i {
        return false;
    }
    let mut k: usize = 0;
    while k < pat.len()
        invariant
            0 < pat.len() <= s.len() - i,
            k <= pat.len(),
            forall|j: int| 0 <= j < k ==> s@[i + j] == pat@[j],
        decreases pat.len() - k,
    {
        if s[i + k] != pat[k] {
            assert(s@.skip(i as int).take(pat.len() as int)[k as int] != pat@[k as int]);
            return false;
        }
        k = k + 1;
    }
    assert(s@.skip(i as int).take(pat.len() as int) =~= pat@);
    true
}

fn replace_chars(s: &Vec<char>, pat: &Vec<char>, rep: &Vec<char>) -> (r: Vec<char>)
    ensures
        r@ == replace_all(s@, pat@, rep@),
{
    let mut r: Vec<char> = Vec::new();
    let mut i: usize = 0;
    assert(s@.skip(0) =~= s@);
    while i < s.len()
        invariant
            i <= s.len(),
            r@ + replace_all(s@.skip(i as int), pat@, rep@) == replace_all(s@, pat@, rep@),
        decreases s.len() - i,
    {
        let ghost rest = s@.skip(i as int);
        if occurs_at(s, i, pat) {
            assert(rest.skip(pat.len() as int) =~= s@.skip(i + pat.len()));
            assert(r@ + (rep@ + replace_all(rest.skip(pat.len() as int), pat@, rep@))
                =~= (r@ + rep@) + replace_all(rest.skip(pat.len() as int), pat@, rep@));
            let mut k: usize = 0;
            let ghost r0 = r@;
            while k < rep.len()
                invariant
                    k <= rep.len(),
                    r@ == r0 + rep@.take(k as int),
                decreases rep.len() - k,
            {
                r.push(rep[k]);
                assert(rep@.take(k + 1) =~= rep@.take(k as int).push(rep@[k as int]));
                k = k + 1;
            }
            assert(rep@.take(rep.len() as int) =~= rep@);
            i = i + pat.len();
        } else {
            assert(rest.skip(1) =~= s@.skip(i + 1));
            assert(r@ + (seq![s@[i as int]] + replace_all(rest.skip(1), pat@, rep@))
                =~= r@.push(s@[i as int]) + replace_all(rest.skip(1), pat@, rep@));
            r.push(s[i]);
            i = i + 1;
        }
    }
    assert(s@.skip(i as int) =~= Seq::<char>::empty());
    assert(r@ + Seq::<char>::empty() =~= r@);
    r
}

fn collapse_spaces(s: &Vec<char>) -> (r: Vec<char>)
    ensures
        r@ == spaces_collapsed(s@),
{
    let mut r: Vec<char> = Vec::new();
    let mut i: usize = 0;
    assert(s@.skip(0) =~= s@);
    while i < s.len()
        invariant
            i <= s.len(),
            r@ + spaces_collapsed(s@.skip(i as int)) == spaces_collapsed(s@),
        decreases s.len() - i,
    {
        let ghost rest = s@.skip(i as int);
        assert(rest.skip(1) =~= s@.skip(i + 1));
        if s[i] == ' ' && i + 1 < s.len() && s[i + 1] == ' ' {
            assert(rest[1] == s@[i + 1]);
        } else {
            assert(r@ + (seq![s@[i as int]] + spaces_collapsed(rest.skip(1)))
                =~= r@.push(s@[i as int]) + spaces_collapsed(rest.skip(1)));
            r.push(s[i]);
        }
        i = i + 1;
    }
    assert(s@.skip(i as int) =~= Seq::<char>::empty());
    assert(r@ + Seq::<char>::empty() =~= r@);
    r
}

/// Cleans a human-readable field (a name, a title, a series name): drops
/// `;`, turns line breaks into spaces, writes `ё` as `е`, and undoes the
/// escapes `\"` and `\'`.
pub fn remove_wrong_chars(s: &str) -> (r: String)
    ensures
        r@ == wrong_chars_removed(s@),
{
    let (p1, r1) = (vec![';'], vec![]);
    let (p2, r2) = (vec!['\n'], vec![' ']);
    let (p3, r3) = (vec!['\u{451}'], vec!['\u{435}']);
    let (p4, r4) = (vec!['\\', '"'], vec!['"']);
    let (p5, r5) = (vec!['\\', '\''], vec!['\'']);
    assert(p1@ =~= seq![';'] && r1@ =~= Seq::<char>::empty());
    assert(p2@ =~= seq!['\n'] && r2@ =~= seq![' ']);
    assert(p3@ =~= seq!['\u{451}'] && r3@ =~= seq!['\u{435}']);
    assert(p4@ =~= seq!['\\', '"'] && r4@ =~= seq!['"']);
    assert(p5@ =~= seq!['\\', '\''] && r5@ =~= seq!['\'']);
    let c0 = chars_of(s);
    let c1 = replace_chars(&c0, &p1, &r1);
    let c2 = replace_chars(&c1, &p2, &r2);
    let c3 = replace_chars(&c2, &p3, &r3);
    let c4 = replace_chars(&c3, &p4, &r4);
    let c5 = replace_chars(&c4, &p5, &r5);
    string_from_chars(&c5)
}

/// Normalises a language code: drops `-` and `~`, then lower-cases.
pub fn parse_lang(s: &str) -> (r: String)
    ensures
        r@ == lowercase_of(lang_stripped(s@)),
{
    let (p1, p2, none) = (vec!['-'], vec!['~'], vec![]);
    assert(p1@ =~= seq!['-'] && p2@ =~= seq!['~'] && none@ =~= Seq::<char>::empty());
    let c0 = chars_of(s);
    let c1 = replace_chars(&c0, &p1, &none);
    let c2 = replace_chars(&c1, &p2, &none);
    let stripped = string_from_chars(&c2);
    lowercase(stripped.as_str())
}

/// The part of the annotation clean-up that comes before HTML cleaning:
/// line breaks from `<br>` and `\n`, `\"` unescaped, runs of spaces collapsed.
pub fn prepare_annotation_text(text: &str) -> (r: String)
    ensures
        r@ == annotation_prepared(text@),
{
    let (p1, p2, p3) = (vec!['<', 'b', 'r', '>'], vec!['\\', 'n'], vec!['\\', '"']);
    let (newline, quote) = (vec!['\n'], vec!['"']);
    assert(p1@ =~= seq!['<', 'b', 'r', '>'] && p2@ =~= seq!['\\', 'n'] && p3@ =~= seq!['\\', '"']);
    assert(newline@ =~= seq!['\n'] && quote@ =~= seq!['"']);
    let c0 = chars_of(text);
    let c1 = replace_chars(&c0, &p1, &newline);
    let c2 = replace_chars(&c1, &p2, &newline);
    let c3 = replace_chars(&c2, &p3, &quote);
    let c4 = collapse_spaces(&c3);
    string_from_chars(&c4)
}

/// The tag that annotation bodies keep; every other tag is stripped.
pub open spec fn kept_tag() -> Seq<char> {
    seq!['a']
}

/// Cleans an annotation body: the steps of `prepare_annotation_text`, then
/// an HTML clean-up that keeps `<a>` tags only (other tags are stripped,
/// their text is kept).
pub fn fix_annotation_text(text: &str) -> (r: String)
    ensures
        r@ == html_cleaned(annotation_prepared(text@), kept_tag()),
{
    let prepared = prepare_annotation_text(text);
    let tag = "a";
    proof {
        reveal_strlit("a");
    }
    assert(tag@ =~= kept_tag());
    clean_html(prepared.as_str(), tag)
}

} // verus!
