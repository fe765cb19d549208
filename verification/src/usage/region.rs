//! Regions and workspaces.

use crate::calendar::Weekday;
use crate::paths::{lies_under, nested, plain_path};
use crate::text::{
    byte_len, chars_of, is_blank, is_ctrl, opt_str, opt_view, slice_of, str_fits, string_of,
    trim_chars, trimmed,
};
use vstd::prelude::*;

verus! {

/// An ASCII letter in upper case, every other character as it is.
pub open spec fn ascii_upper(c: char) -> char {
    if 'a' <= c <= 'z' {
        ((c as u32) - 32) as char
    } else {
        c
    }
}

/// Whether a character is an ASCII letter.
pub open spec fn is_letter(c: char) -> bool {
    'a' <= c <= 'z' || 'A' <= c <= 'Z'
}

fn upper(c: char) -> (r: char)
    ensures
        r == ascii_upper(c),
{
    if 'a' <= c && c <= 'z' {
        let n: u8 = (c as u8) - 32;
        n as char
    } else {
        c
    }
}

/// The text up to the first character that a test accepts.
pub open spec fn until(s: Seq<char>, p: spec_fn(char) -> bool) -> Seq<char>
    decreases s.len(),
{
    if s.len() == 0 || p(s[0]) {
        Seq::empty()
    } else {
        seq![s[0]] + until(s.skip(1), p)
    }
}

/// A dot or an at sign, which end the language and region of a locale.
pub open spec fn ends_base() -> spec_fn(char) -> bool {
    |c: char| c == '.' || c == '@'
}

/// An underscore or a hyphen, which stand between language and region.
pub open spec fn parts_base() -> spec_fn(char) -> bool {
    |c: char| c == '_' || c == '-'
}

/// The part of a locale's name behind its language, up to the next separator.
pub open spec fn region_part(name: Seq<char>) -> Option<Seq<char>> {
    let base = until(name, ends_base());
    let language = until(base, parts_base());
    if language.len() == base.len() {
        None
    } else {
        Some(trimmed(until(base.skip(language.len() as int + 1), parts_base())))
    }
}

/// Equal but for the case of ASCII letters.
pub open spec fn same_letters(a: Seq<char>, b: Seq<char>) -> bool {
    a.len() == b.len() && forall|i: int|
        0 <= i < a.len() ==> ascii_upper(#[trigger] a[i]) == ascii_upper(b[i])
}

/// The region that a locale's name holds: two letters behind the language, in upper case.
pub open spec fn region_of(value: Seq<char>) -> Option<Seq<char>> {
    let name = trimmed(value);
    if name.len() == 0 || same_letters(name, "c"@) || same_letters(name, "posix"@) {
        None
    } else {
        match region_part(name) {
            Some(r) => if r.len() == 2 && is_letter(r[0]) && is_letter(r[1]) {
                Some(seq![ascii_upper(r[0]), ascii_upper(r[1])])
            } else {
                None
            },
            None => None,
        }
    }
}

proof fn lemma_until(s: Seq<char>, p: spec_fn(char) -> bool, i: int)
    requires
        0 <= i <= s.len(),
        forall|j: int| 0 <= j < i ==> !p(#[trigger] s[j]),
        i < s.len() ==> p(s[i]),
    ensures
        until(s, p) == s.take(i),
    decreases i,
{
    if i == 0 {
        assert(s.take(0) =~= Seq::empty());
    } else {
        assert(!p(s[0]));
        assert forall|j: int| 0 <= j < i - 1 implies !p(#[trigger] s.skip(1)[j]) by {
            assert(s.skip(1)[j] == s[j + 1]);
        }
        lemma_until(s.skip(1), p, i - 1);
        assert(seq![s[0]] + s.skip(1).take(i - 1) =~= s.take(i));
    }
}

fn base_of(name: &Vec<char>) -> (r: Vec<char>)
    ensures
        r@ == until(name@, ends_base()),
{
    let mut i: usize = 0;
    while i < name.len() && name[i] != '.' && name[i] != '@'
        invariant
            i <= name@.len(),
            forall|j: int| 0 <= j < i ==> !ends_base()(#[trigger] name@[j]),
        decreases name@.len() - i,
    {
        i += 1;
    }
    proof {
        lemma_until(name@, ends_base(), i as int);
    }
    slice_of(name, 0, i)
}

fn first_part(base: &Vec<char>) -> (r: Vec<char>)
    ensures
        r@ == until(base@, parts_base()),
        r@.len() <= base@.len(),
{
    let mut i: usize = 0;
    while i < base.len() && base[i] != '_' && base[i] != '-'
        invariant
            i <= base@.len(),
            forall|j: int| 0 <= j < i ==> !parts_base()(#[trigger] base@[j]),
        decreases base@.len() - i,
    {
        i += 1;
    }
    proof {
        lemma_until(base@, parts_base(), i as int);
    }
    slice_of(base, 0, i)
}

fn same_word(a: &Vec<char>, b: &str) -> (r: bool)
    ensures
        r == same_letters(a@, b@),
{
    let w = chars_of(b);
    if a.len() != w.len() {
        return false;
    }
    let mut i: usize = 0;
    while i < a.len()
        invariant
            i <= a@.len() == w@.len(),
            w@ == b@,
            forall|j: int| 0 <= j < i ==> ascii_upper(#[trigger] a@[j]) == ascii_upper(w@[j]),
        decreases a@.len() - i,
    {
        if upper(a[i]) != upper(w[i]) {
            return false;
        }
        i += 1;
    }
    true
}

fn letter(c: char) -> (r: bool)
    ensures
        r == is_letter(c),
{
    ('a' <= c && c <= 'z') || ('A' <= c && c <= 'Z')
}

/// The region that a locale's name holds.
pub fn locale_region(value: &str) -> (r: Option<String>)
    ensures
        opt_view(r) == region_of(value@),
{
    let all = chars_of(value);
    let name = trim_chars(&all);
    if name.len() == 0 || same_word(&name, "c") || same_word(&name, "posix") {
        return None;
    }
    let base = base_of(&name);
    let language = first_part(&base);
    if language.len() == base.len() {
        return None;
    }
    let behind = slice_of(&base, language.len() + 1, base.len());
    assert(behind@ =~= base@.skip(language@.len() as int + 1));
    let part = first_part(&behind);
    let region = trim_chars(&part);
    if region.len() != 2 || !letter(region[0]) || !letter(region[1]) {
        return None;
    }
    let mut out: Vec<char> = Vec::new();
    out.push(upper(region[0]));
    out.push(upper(region[1]));
    assert(out@ =~= seq![ascii_upper(region@[0]), ascii_upper(region@[1])]);
    Some(string_of(&out))
}

/// Regions whose week starts on Saturday, two letters each.
pub open spec fn saturday_regions() -> Seq<char> {
    "AEAFBHDJDZEGIQIRJOKWLYOMQASDSYYE"@
}

/// Regions whose week starts on Sunday, two letters each.
pub open spec fn sunday_regions() -> Seq<char> {
    "AGARASAUBDBRBSBTBWBZCACNCODMDOETGTGUHKHNIDILINJMJPKEKHKRLAMHMMMOMTMXMZNINPPAPEPHPKPRPTPYSASGSVTHTTTWUMUSVEVIWSZAZW"@
}

/// A list of pairs of letters holds a pair.
pub open spec fn lists(list: Seq<char>, a: char, b: char) -> bool {
    exists|i: int|
        0 <= i && 2 * i + 1 < list.len() && #[trigger] list[2 * i] == a && list[2 * i + 1] == b
}

/// The first day of the week in a region.
pub open spec fn region_first_weekday(region: Seq<char>) -> Weekday {
    if region.len() != 2 {
        Weekday::Mon
    } else {
        let a = ascii_upper(region[0]);
        let b = ascii_upper(region[1]);
        if lists(saturday_regions(), a, b) {
            Weekday::Sat
        } else if lists(sunday_regions(), a, b) {
            Weekday::Sun
        } else {
            Weekday::Mon
        }
    }
}

fn in_list(list: &str, a: char, b: char) -> (r: bool)
    ensures
        r == lists(list@, a, b),
{
    let w = chars_of(list);
    let total: usize = w.len();
    let n: usize = total / 2;
    let mut i: usize = 0;
    while i < n
        invariant
            i <= n,
            n == total / 2,
            total == w@.len(),
            w@ == list@,
            forall|j: int|
                0 <= j < i ==> !(#[trigger] w@[2 * j] == a && w@[2 * j + 1] == b),
        decreases n - i,
    {
        if w[2 * i] == a && w[2 * i + 1] == b {
            assert(w@[2 * (i as int)] == a);
            return true;
        }
        i += 1;
    }
    false
}

/// The first day of the week in a region.
pub fn first_weekday_for_region(region: &str) -> (r: Weekday)
    ensures
        r == region_first_weekday(region@),
{
    let c = chars_of(region);
    if c.len() != 2 {
        return Weekday::Mon;
    }
    let a = upper(c[0]);
    let b = upper(c[1]);
    if in_list("AEAFBHDJDZEGIQIRJOKWLYOMQASDSYYE", a, b) {
        Weekday::Sat
    } else if in_list(
        "AGARASAUBDBRBSBTBWBZCACNCODMDOETGTGUHKHNIDILINJMJPKEKHKRLAMHMMMOMTMXMZNINPPAPEPHPKPRPTPYSASGSVTHTTTWUMUSVEVIWSZAZW",
        a,
        b,
    ) {
        Weekday::Sun
    } else {
        Weekday::Mon
    }
}

/// The first setting that is not blank.
pub open spec fn first_set(
    a: Option<Seq<char>>,
    b: Option<Seq<char>>,
    c: Option<Seq<char>>,
) -> Option<Seq<char>> {
    if a is Some && trimmed(a->0).len() > 0 {
        a
    } else if b is Some && trimmed(b->0).len() > 0 {
        b
    } else if c is Some && trimmed(c->0).len() > 0 {
        c
    } else {
        None
    }
}

/// The first day of the week by the settings of the environment: `LC_TIME`, then `LC_ALL`, then
/// `LANG`. The first one that is set decides, even where it names no region.
pub fn first_weekday_from_settings(
    lc_time: Option<&str>,
    lc_all: Option<&str>,
    lang: Option<&str>,
) -> (r: Weekday)
    ensures
        r == (match first_set(opt_str(lc_time), opt_str(lc_all), opt_str(lang)) {
            Some(v) => match region_of(v) {
                Some(region) => region_first_weekday(region),
                None => Weekday::Mon,
            },
            None => Weekday::Mon,
        }),
{
    let chosen: &str = match lc_time {
        Some(v) if !is_blank(v) => v,
        _ => match lc_all {
            Some(v) if !is_blank(v) => v,
            _ => match lang {
                Some(v) if !is_blank(v) => v,
                _ => {
                    return Weekday::Mon;
                },
            },
        },
    };
    match locale_region(chosen) {
        Some(region) => first_weekday_for_region(region.as_str()),
        None => Weekday::Mon,
    }
}

/// A working directory that a session log may name: not empty, not overlong, no control characters.
pub open spec fn plausible_path(cwd: Seq<char>) -> bool {
    0 < cwd.len() && byte_len(cwd) <= 4096 && forall|i: int|
        0 <= i < cwd.len() ==> !is_ctrl(#[trigger] cwd[i])
}

fn is_plausible(cwd: &str) -> (r: bool)
    ensures
        r == plausible_path(cwd@),
{
    if cwd.is_empty() || !str_fits(cwd, 4096) {
        return false;
    }
    let chars = chars_of(cwd);
    let mut i: usize = 0;
    while i < chars.len()
        invariant
            i <= chars@.len(),
            chars@ == cwd@,
            forall|j: int| 0 <= j < i ==> !is_ctrl(#[trigger] chars@[j]),
        decreases chars@.len() - i,
    {
        if chars[i].is_control() {
            return false;
        }
        i += 1;
    }
    true
}

/// Whether a session belongs to a workspace, by what its path is to the workspace's: an absolute
/// workspace takes absolute paths only.
pub fn workspace_admits(
    cwd: &str,
    workspace_absolute: bool,
    cwd_absolute: bool,
    cwd_under_workspace: bool,
) -> (r: bool)
    ensures
        r == (plausible_path(cwd@) && (workspace_absolute ==> cwd_absolute) && cwd_under_workspace),
{
    is_plausible(cwd) && (!workspace_absolute || cwd_absolute) && cwd_under_workspace
}

/// `std::path::Path::is_absolute` on a workspace and a working directory. A platform may ask for more
/// than a slash in front, such as a drive. It says the same of two paths where one is the other or
/// plainly continues it, and of two plain paths that both begin at the root; a plain path that does
/// not begin at the root is never absolute.
#[verifier::external_body]
fn are_absolute(workspace: &str, cwd: &str) -> (r: (bool, bool))
    ensures
        workspace@ == cwd@ || nested(cwd@, workspace@) ==> r.0 == r.1,
        plain_path(workspace@) && plain_path(cwd@) && workspace@[0] == '/' && cwd@[0] == '/' ==> r.0
            == r.1,
        plain_path(workspace@) && workspace@[0] != '/' ==> !r.0,
        plain_path(cwd@) && cwd@[0] != '/' ==> !r.1,
{
    (std::path::Path::new(workspace).is_absolute(), std::path::Path::new(cwd).is_absolute())
}

/// `std::path::Path::starts_with`: whether the parts of a path begin with all the parts of another
/// one. A path begins with itself and with one that it plainly continues. How other paths fall into
/// parts depends on the platform; plain ones fall into the same parts on all of them.
#[verifier::external_body]
fn is_under(path: &str, base: &str) -> (r: bool)
    ensures
        path@ == base@ || nested(path@, base@) ==> r,
        plain_path(path@) && plain_path(base@) ==> r == lies_under(path@, base@),
{
    std::path::Path::new(path).starts_with(base)
}

/// Whether a session's working directory is a workspace or lies under it. An implausible directory
/// belongs to no workspace. Of plain paths the texts decide. What the platform says of the parts of
/// other paths is left open, but a plausible one belongs to itself and to every workspace that it
/// plainly continues.
pub fn path_matches_workspace(cwd: &str, workspace_path: &str) -> (r: bool)
    ensures
        !plausible_path(cwd@) ==> !r,
        cwd@ == workspace_path@ || nested(cwd@, workspace_path@) ==> r == plausible_path(cwd@),
        plain_path(cwd@) && plain_path(workspace_path@) ==> r == (plausible_path(cwd@)
            && lies_under(cwd@, workspace_path@)),
{
    let (workspace_absolute, cwd_absolute) = are_absolute(workspace_path, cwd);
    proof {
        if plain_path(cwd@) && plain_path(workspace_path@) && lies_under(cwd@, workspace_path@) {
            if cwd@ != workspace_path@ {
                assert(cwd@[0] == cwd@.take(workspace_path@.len() as int)[0]);
            }
        }
    }
    workspace_admits(cwd, workspace_absolute, cwd_absolute, is_under(cwd, workspace_path))
}

/// The name of a locale gives its region: two letters behind the language and an underscore or a
/// hyphen, whatever encoding follows, in upper case.
pub proof fn locales_name_their_region(
    language: Seq<char>,
    mark: char,
    a: char,
    b: char,
    ending: Seq<char>,
)
    requires
        language.len() >= 2,
        forall|i: int| 0 <= i < language.len() ==> is_letter(#[trigger] language[i]),
        mark == '_' || mark == '-',
        is_letter(a),
        is_letter(b),
        ending.len() == 0 || ending[0] == '.' || ending[0] == '@',
        trimmed(language + seq![mark, a, b] + ending) == language + seq![mark, a, b] + ending,
        trimmed(seq![a, b]) == seq![a, b],
    ensures
        region_of(language + seq![mark, a, b] + ending) == Some(
            seq![ascii_upper(a), ascii_upper(b)],
        ),
{
    let name = language + seq![mark, a, b] + ending;
    let n = language.len() as int;
    assert(name[n] == mark);
    let base = language + seq![mark, a, b];
    assert forall|j: int| 0 <= j < n + 3 implies !ends_base()(#[trigger] name[j]) by {
        if j < n {
            assert(name[j] == language[j]);
        }
    }
    lemma_until(name, ends_base(), n + 3);
    assert(name.take(n + 3) =~= base);
    assert forall|j: int| 0 <= j < n implies !parts_base()(#[trigger] base[j]) by {
        assert(base[j] == language[j]);
    }
    assert(base[n] == mark);
    lemma_until(base, parts_base(), n);
    assert(base.take(n) =~= language);
    let behind = base.skip(n + 1);
    assert(behind =~= seq![a, b]);
    lemma_until(behind, parts_base(), 2);
    assert(behind.take(2) =~= seq![a, b]);
    reveal_strlit("c");
    reveal_strlit("posix");
    assert("c"@.len() == 1);
    assert("posix"@.len() == 5);
    if same_letters(name, "posix"@) {
        assert(ascii_upper(name[n]) == ascii_upper("posix"@[n]));
        assert("posix"@[2] == 's' && "posix"@[3] == 'i' && "posix"@[4] == 'x');
        assert(n == 2);
    }
}

/// The case of the letters of a region does not matter, and only regions of two letters have a week
/// of their own.
pub proof fn regions_ignore_case(a: char, b: char, region: Seq<char>)
    requires
        'a' <= a <= 'z',
        'a' <= b <= 'z',
    ensures
        region_first_weekday(seq![a, b]) == region_first_weekday(
            seq![ascii_upper(a), ascii_upper(b)],
        ),
        ascii_upper(a) as int == a as int - 32,
        region.len() != 2 ==> region_first_weekday(region) == Weekday::Mon,
{
}

/// The first setting that says anything decides: a blank one does not.
pub proof fn first_setting_decides(
    a: Option<Seq<char>>,
    b: Option<Seq<char>>,
    c: Option<Seq<char>>,
    text: Seq<char>,
)
    requires
        trimmed(text).len() > 0,
    ensures
        first_set(Some(text), b, c) == Some(text),
        first_set(None, Some(text), c) == Some(text),
        first_set(None, None, Some(text)) == Some(text),
        first_set(None, None, None) is None,
        a is Some && trimmed(a->0).len() == 0 ==> first_set(a, b, c) == first_set(None, b, c),
        b is Some && trimmed(b->0).len() == 0 ==> first_set(None, b, c) == first_set(None, None, c),
{
}

} // verus!
