//! Plugin manifest rules: kebab-case names and strict semantic versions.
use vstd::prelude::*;
use crate::text::{
    chars_of, count_char, count_of, find_char, index_of, owned, seqs, slice_of, split_any, split_on,
};

verus! {

/// Why a Plugin name was refused.
#[derive(Clone, Copy, Debug, PartialEq, Eq)]
pub enum PluginNameError {
    Length,
    NotKebabCase,
}

impl PluginNameError {
    /// The text of the error.
    pub open spec fn message(self) -> Seq<char> {
        match self {
            PluginNameError::Length => "Plugin name must contain 1 to 64 characters"@,
            PluginNameError::NotKebabCase => "Plugin name must use lower-case kebab-case"@,
        }
    }

    /// The text of the error.
    pub fn to_string(&self) -> (r: String)
        ensures
            r@ == self.message(),
    {
        match self {
            PluginNameError::Length => owned("Plugin name must contain 1 to 64 characters"),
            PluginNameError::NotKebabCase => owned("Plugin name must use lower-case kebab-case"),
        }
    }
}

/// The UTF-8 length of `s` in bytes (`str::len`).
pub open spec fn byte_len(s: Seq<char>) -> nat {
    vstd::utf8::encode_utf8(s).len()
}

/// A lower-case ASCII letter, an ASCII digit or `-`.
pub open spec fn is_kebab_char(c: char) -> bool {
    ('a' <= c <= 'z') || ('0' <= c <= '9') || c == '-'
}

/// Lower-case kebab-case: only `a`-`z`, `0`-`9` and `-`, no leading or
/// trailing `-`, and no `--`.
pub open spec fn is_kebab_case(s: Seq<char>) -> bool {
    &&& s.len() > 0
    &&& s[0] != '-'
    &&& s.last() != '-'
    &&& forall|i: int| 0 <= i < s.len() ==> is_kebab_char(#[trigger] s[i])
    &&& forall|i: int| 0 <= i < s.len() - 1 ==> !(#[trigger] s[i] == '-' && s[i + 1] == '-')
}

/// The name check: 1 to 64 bytes, then lower-case kebab-case.
pub open spec fn plugin_name_check(name: Seq<char>) -> Result<(), PluginNameError> {
    if name.len() == 0 || byte_len(name) > 64 {
        Err(PluginNameError::Length)
    } else if !is_kebab_case(name) {
        Err(PluginNameError::NotKebabCase)
    } else {
        Ok(())
    }
}

/// A valid Plugin name is one path name, and holds no `/`.
pub proof fn lemma_plugin_name_is_path_name(name: Seq<char>)
    requires
        plugin_name_check(name) is Ok,
    ensures
        crate::paths::is_single_name(name),
        forall|i: int| 0 <= i < name.len() ==> #[trigger] name[i] != '/',
{
    assert forall|i: int| 0 <= i < name.len() implies #[trigger] name[i] != '/' by {
        assert(is_kebab_char(name[i]));
    }
    if name == crate::paths::cur_comp() {
        assert(is_kebab_char(name[0]));
    }
    if name == crate::paths::parent_comp() {
        assert(is_kebab_char(name[0]));
    }
}

/// Whether the UTF-8 length of `v` exceeds `limit`.
fn byte_len_exceeds(v: &Vec<char>, limit: usize) -> (r: bool)
    requires
        limit < 1000,
    ensures
        r == (byte_len(v@) > limit),
{
    let mut total: usize = 0;
    let mut j: usize = v.len();
    assert(v@.skip(v.len() as int) =~= Seq::<char>::empty());
    while j > 0
        invariant
            j <= v.len(),
            limit < 1000,
            total <= limit,
            total == byte_len(v@.skip(j as int)),
        decreases j,
    {
        let ghost rest = v@.skip(j - 1);
        assert(rest.drop_first() =~= v@.skip(j as int));
        assert(rest[0] == v@[j - 1]);
        let u = v[j - 1] as u32;
        let w: usize = if u <= 0x7F {
            1
        } else if u <= 0x7FF {
            2
        } else if u <= 0xFFFF {
            3
        } else {
            4
        };
        proof {
            vstd::utf8::char_is_scalar(v@[j - 1]);
            assert(vstd::utf8::encode_scalar(u).len() == w);
        }
        total = total + w;
        j = j - 1;
        if total > limit {
            proof {
                lemma_byte_len_suffix_grows(v@, j as int);
            }
            return true;
        }
    }
    assert(v@.skip(0) =~= v@);
    false
}

/// A suffix of `s` has at most as many bytes as `s`.
proof fn lemma_byte_len_suffix_grows(s: Seq<char>, j: int)
    requires
        0 <= j <= s.len(),
    ensures
        byte_len(s) >= byte_len(s.skip(j)),
    decreases j,
{
    if j > 0 {
        lemma_byte_len_suffix_grows(s, j - 1);
        let x = s.skip(j - 1);
        assert(x.drop_first() =~= s.skip(j));
        assert(vstd::utf8::encode_utf8(x) == vstd::utf8::encode_scalar(x[0] as u32)
            + vstd::utf8::encode_utf8(x.drop_first()));
    } else {
        assert(s.skip(0) =~= s);
    }
}

/// Checks a Plugin name.
pub fn validate_plugin_name(name: &str) -> (r: Result<(), PluginNameError>)
    ensures
        r == plugin_name_check(name@),
{
    let v = chars_of(name);
    if v.len() == 0 || byte_len_exceeds(&v, 64) {
        return Err(PluginNameError::Length);
    }
    if v[0] == '-' || v[v.len() - 1] == '-' {
        return Err(PluginNameError::NotKebabCase);
    }
    let mut i: usize = 0;
    while i < v.len()
        invariant
            i <= v.len(),
            v@ == name@,
            v.len() > 0,
            !(byte_len(v@) > 64),
            v@[0] != '-',
            v@[v.len() - 1] != '-',
            forall|j: int| 0 <= j < i ==> is_kebab_char(#[trigger] v@[j]),
            forall|j: int| 0 <= j < i && j < v.len() - 1 ==> !(#[trigger] v@[j] == '-' && v@[j + 1] == '-'),
        decreases v.len() - i,
    {
        let c = v[i];
        if !(('a' <= c && c <= 'z') || ('0' <= c && c <= '9') || c == '-') {
            assert(!is_kebab_char(v@[i as int]));
            return Err(PluginNameError::NotKebabCase);
        }
        if i + 1 < v.len() && c == '-' && v[i + 1] == '-' {
            assert(v@[i as int] == '-' && v@[i + 1] == '-');
            return Err(PluginNameError::NotKebabCase);
        }
        i = i + 1;
    }
    Ok(())
}

/// An ASCII digit.
pub open spec fn is_digit(c: char) -> bool {
    '0' <= c <= '9'
}

/// Every character is an ASCII digit.
pub open spec fn all_digits(s: Seq<char>) -> bool {
    forall|i: int| 0 <= i < s.len() ==> is_digit(#[trigger] s[i])
}

/// `s` is exactly `0`.
pub open spec fn is_zero(s: Seq<char>) -> bool {
    s == seq!['0']
}

/// A numeric core part: digits, without a leading zero unless it is `0`.
pub open spec fn valid_core_part(p: Seq<char>) -> bool {
    p.len() > 0 && all_digits(p) && (is_zero(p) || p[0] != '0')
}

/// An ASCII letter or digit, or `-`.
pub open spec fn is_identifier_char(c: char) -> bool {
    ('a' <= c <= 'z') || ('A' <= c <= 'Z') || ('0' <= c <= '9') || c == '-'
}

/// A dot-separated pre-release or build identifier: non-empty, letters,
/// digits and `-`; numeric pre-release identifiers have no leading zero.
pub open spec fn valid_identifier(id: Seq<char>, reject_numeric_leading_zero: bool) -> bool {
    &&& id.len() > 0
    &&& forall|i: int| 0 <= i < id.len() ==> is_identifier_char(#[trigger] id[i])
    &&& (!reject_numeric_leading_zero || !all_digits(id) || is_zero(id) || id[0] != '0')
}

/// A non-empty list of dot-separated identifiers.
pub open spec fn valid_identifiers(value: Seq<char>, reject_numeric_leading_zero: bool) -> bool {
    value.len() > 0 && forall|k: int|
        0 <= k < split_any(value, seq!['.']).len() ==> valid_identifier(
            #[trigger] split_any(value, seq!['.'])[k],
            reject_numeric_leading_zero,
        )
}

/// `str::split_once(c)`: the text before the first `c` and, if there is
/// one, the text after it.
pub open spec fn split_once(s: Seq<char>, c: char) -> (Seq<char>, Option<Seq<char>>) {
    let i = index_of(s, c);
    if i < 0 {
        (s, None)
    } else {
        (s.take(i), Some(s.skip(i + 1)))
    }
}

/// A strict semantic version `MAJOR.MINOR.PATCH[-PRERELEASE][+BUILD]`: at
/// most one `+`; the build after it and the pre-release after the first `-`
/// are identifier lists; the core is three numeric parts.
pub open spec fn strict_semver(version: Seq<char>) -> bool {
    &&& version.len() > 0
    &&& count_char(version, '+') <= 1
    &&& {
        let (without_build, build) = split_once(version, '+');
        &&& (build matches Some(b) ==> valid_identifiers(b, false))
        &&& {
            let (core, prerelease) = split_once(without_build, '-');
            &&& (prerelease matches Some(p) ==> valid_identifiers(p, true))
            &&& split_any(core, seq!['.']).len() == 3
            &&& forall|k: int| 0 <= k < 3 ==> valid_core_part(#[trigger] split_any(core, seq!['.'])[k])
        }
    }
}

/// `s` does not hold `c`.
pub open spec fn lacks(s: Seq<char>, c: char) -> bool {
    forall|i: int| 0 <= i < s.len() ==> s[i] != c
}

proof fn lemma_lacks_char(s: Seq<char>, c: char)
    requires
        lacks(s, c),
    ensures
        count_char(s, c) == 0,
        index_of(s, c) == -1,
    decreases s.len(),
{
    if s.len() > 0 {
        assert(lacks(s.drop_last(), c)) by {
            assert forall|i: int| 0 <= i < s.drop_last().len() implies s.drop_last()[i] != c by {
                assert(s.drop_last()[i] == s[i]);
            }
        }
        lemma_lacks_char(s.drop_last(), c);
        assert(s.last() == s[s.len() - 1]);
    }
}

pub(crate) proof fn lemma_split_len(s: Seq<char>, seps: Seq<char>)
    ensures
        split_any(s, seps).len() >= 1,
    decreases s.len(),
{
    if s.len() > 0 {
        lemma_split_len(s.drop_last(), seps);
    }
}

/// Appending text without separators extends the last piece.
pub(crate) proof fn lemma_split_extend(s: Seq<char>, t: Seq<char>, seps: Seq<char>)
    requires
        forall|i: int| 0 <= i < t.len() ==> !seps.contains(#[trigger] t[i]),
    ensures
        split_any(s + t, seps) == split_any(s, seps).update(
            split_any(s, seps).len() - 1,
            split_any(s, seps).last() + t,
        ),
    decreases t.len(),
{
    lemma_split_len(s, seps);
    if t.len() == 0 {
        assert(s + t =~= s);
        assert(split_any(s, seps).last() + t =~= split_any(s, seps).last());
        assert(split_any(s, seps).update(split_any(s, seps).len() - 1, split_any(s, seps).last())
            =~= split_any(s, seps));
    } else {
        let t0 = t.drop_last();
        lemma_split_extend(s, t0, seps);
        assert((s + t).drop_last() =~= s + t0);
        assert((s + t).last() == t[t.len() - 1]);
        let r = split_any(s, seps);
        assert((r.last() + t0).push(t.last()) =~= r.last() + t);
        assert(!seps.contains(t[t.len() - 1]));
        assert(r.update(r.len() - 1, r.last() + t0).update(r.len() - 1, (r.last() + t0).push(t.last()))
            =~= r.update(r.len() - 1, r.last() + t));
    }
}

/// Appending a separator starts a new, empty piece.
proof fn lemma_split_sep(s: Seq<char>, sep: char)
    ensures
        split_any(s + seq![sep], seq![sep]) == split_any(s, seq![sep]).push(Seq::<char>::empty()),
{
    assert((s + seq![sep]).drop_last() =~= s);
    assert(seq![sep].contains(sep)) by {
        assert(seq![sep][0] == sep);
    }
}

/// `a.b.c` splits at its dots into `a`, `b` and `c` when none of them holds
/// a dot.
proof fn lemma_split_three(a: Seq<char>, b: Seq<char>, c: Seq<char>)
    requires
        lacks(a, '.'),
        lacks(b, '.'),
        lacks(c, '.'),
    ensures
        split_any(a + seq!['.'] + b + seq!['.'] + c, seq!['.']) == seq![a, b, c],
{
    let d = seq!['.'];
    assert forall|t: Seq<char>| lacks(t, '.') implies (forall|i: int| 0 <= i < t.len() ==> !d.contains(#[trigger] t[i])) by {
        assert forall|i: int| 0 <= i < t.len() implies !d.contains(#[trigger] t[i]) by {
            if d.contains(t[i]) {
                let j = choose|j: int| 0 <= j < d.len() && d[j] == t[i];
                assert(d[j] == '.');
            }
        }
    }
    let e = Seq::<char>::empty();
    lemma_split_extend(e, a, d);
    assert(split_any(e, d) =~= seq![e]);
    assert(e + a =~= a);
    assert(split_any(a, d) =~= seq![a]);
    lemma_split_sep(a, '.');
    lemma_split_extend(a + d, b, d);
    assert(split_any(a + d + b, d) =~= seq![a, b]);
    lemma_split_sep(a + d + b, '.');
    lemma_split_extend(a + d + b + d, c, d);
    assert(split_any(a + d + b + d + c, d) =~= seq![a, b, c]);
}

/// A decimal number as semantic versioning writes a core part: one or more
/// digits, with no leading zero unless the number is `0`.
pub open spec fn decimal_number(p: Seq<char>) -> bool {
    &&& p.len() > 0
    &&& forall|i: int| 0 <= i < p.len() ==> '0' <= #[trigger] p[i] <= '9'
    &&& (p.len() == 1 || p[0] != '0')
}

/// A version `MAJOR.MINOR.PATCH` without pre-release or build is strict
/// exactly when each of its three parts is a decimal number without a
/// leading zero, of any length: `1.10.0` and `10.200.3000` are, `01.0.0`,
/// `1..0` and `1.x.0` are not.
pub proof fn law_numeric_versions_are_strict(a: Seq<char>, b: Seq<char>, c: Seq<char>)
    requires
        lacks(a, '.') && lacks(a, '+') && lacks(a, '-'),
        lacks(b, '.') && lacks(b, '+') && lacks(b, '-'),
        lacks(c, '.') && lacks(c, '+') && lacks(c, '-'),
    ensures
        strict_semver(a + seq!['.'] + b + seq!['.'] + c) <==> decimal_number(a) && decimal_number(b)
            && decimal_number(c),
{
    let v = a + seq!['.'] + b + seq!['.'] + c;
    assert forall|i: int| 0 <= i < v.len() implies v[i] != '+' && v[i] != '-' by {
        if i < a.len() {
            assert(v[i] == a[i]);
        } else if i == a.len() {
        } else if i < a.len() + 1 + b.len() {
            assert(v[i] == b[i - a.len() - 1]);
        } else if i == a.len() + 1 + b.len() {
        } else {
            assert(v[i] == c[i - a.len() - 2 - b.len()]);
        }
    }
    lemma_lacks_char(v, '+');
    lemma_lacks_char(v, '-');
    lemma_split_three(a, b, c);
    let parts = split_any(v, seq!['.']);
    assert(parts[0] == a && parts[1] == b && parts[2] == c);
    assert forall|p: Seq<char>| valid_core_part(p) <==> decimal_number(p) by {
        if p.len() == 1 && p[0] == '0' {
            assert(p =~= seq!['0']);
        }
    }
}

proof fn lemma_index_of_first(s: Seq<char>, c: char, t: Seq<char>)
    requires
        lacks(s, c),
    ensures
        index_of(s + seq![c] + t, c) == s.len(),
    decreases t.len(),
{
    if t.len() == 0 {
        assert(s + seq![c] + t =~= s.push(c));
        assert(s.push(c).drop_last() =~= s);
        lemma_lacks_char(s, c);
    } else {
        assert((s + seq![c] + t).drop_last() =~= s + seq![c] + t.drop_last());
        lemma_index_of_first(s, c, t.drop_last());
    }
}

proof fn lemma_count_concat(s: Seq<char>, t: Seq<char>, c: char)
    ensures
        count_char(s + t, c) == count_char(s, c) + count_char(t, c),
    decreases t.len(),
{
    if t.len() == 0 {
        assert(s + t =~= s);
    } else {
        assert((s + t).drop_last() =~= s + t.drop_last());
        lemma_count_concat(s, t.drop_last(), c);
    }
}

/// A letter, digit or `-`, as a pre-release or build identifier is made of.
pub open spec fn is_alnum_or_hyphen(c: char) -> bool {
    ('a' <= c <= 'z') || ('A' <= c <= 'Z') || ('0' <= c <= '9') || c == '-'
}

/// A strict core version keeps being strict with one build identifier, or
/// with one pre-release identifier that is not a number with a leading
/// zero: `1.10.0+build-7` and `1.10.0-rc-1` are strict, whatever the
/// lengths of the numbers.
pub proof fn law_versions_with_prerelease_or_build(a: Seq<char>, b: Seq<char>, c: Seq<char>, x: Seq<char>)
    requires
        decimal_number(a) && decimal_number(b) && decimal_number(c),
        x.len() > 0,
        forall|i: int| 0 <= i < x.len() ==> is_alnum_or_hyphen(#[trigger] x[i]),
    ensures
        strict_semver(a + seq!['.'] + b + seq!['.'] + c + seq!['+'] + x),
        (exists|i: int| 0 <= i < x.len() && !('0' <= #[trigger] x[i] <= '9')) || x.len() == 1 || x[0] != '0'
            ==> strict_semver(a + seq!['.'] + b + seq!['.'] + c + seq!['-'] + x),
{
    assert forall|p: Seq<char>, ch: char| decimal_number(p) && (ch == '.' || ch == '+' || ch == '-') implies lacks(p, ch) by {
        assert forall|i: int| 0 <= i < p.len() implies p[i] != ch by {
            assert('0' <= p[i] <= '9');
        }
    }
    let core = a + seq!['.'] + b + seq!['.'] + c;
    law_numeric_versions_are_strict(a, b, c);
    assert(strict_semver(core));
    assert forall|i: int| 0 <= i < core.len() implies core[i] != '+' && core[i] != '-' && ('0' <= core[i] <= '9'
        || core[i] == '.') by {
        if i < a.len() {
            assert(core[i] == a[i]);
        } else if i == a.len() {
        } else if i < a.len() + 1 + b.len() {
            assert(core[i] == b[i - a.len() - 1]);
        } else if i == a.len() + 1 + b.len() {
        } else {
            assert(core[i] == c[i - a.len() - 2 - b.len()]);
        }
    }
    assert(lacks(core, '+') && lacks(core, '-'));
    lemma_lacks_char(core, '+');
    lemma_lacks_char(core, '-');
    assert(lacks(x, '.') && lacks(x, '+')) by {
        assert forall|i: int| 0 <= i < x.len() implies x[i] != '.' && x[i] != '+' by {
            assert(is_alnum_or_hyphen(x[i]));
        }
    }
    lemma_lacks_char(x, '+');
    // `x` alone is its one dot-separated identifier.
    let d = seq!['.'];
    assert forall|i: int| 0 <= i < x.len() implies !d.contains(#[trigger] x[i]) by {
        if d.contains(x[i]) {
            assert(d[0] == x[i]);
        }
    }
    let e = Seq::<char>::empty();
    lemma_split_extend(e, x, d);
    assert(e + x =~= x);
    assert(split_any(e, d) =~= seq![e]);
    assert(split_any(x, d) =~= seq![x]);
    assert(valid_identifiers(x, false));
    // With a build identifier.
    let vb = core + seq!['+'] + x;
    lemma_count_concat(core + seq!['+'], x, '+');
    lemma_count_concat(core, seq!['+'], '+');
    assert(seq!['+'].drop_last() =~= Seq::<char>::empty());
    assert(seq!['+'].last() == '+');
    assert(count_char(Seq::<char>::empty(), '+') == 0);
    assert(count_char(seq!['+'], '+') == 1);
    lemma_index_of_first(core, '+', x);
    assert(vb.take(core.len() as int) =~= core);
    assert(vb.skip(core.len() as int + 1) =~= x);
    assert(split_once(vb, '+') == (core, Some(x)));
    // With a pre-release identifier.
    let vp = core + seq!['-'] + x;
    assert(lacks(vp, '+')) by {
        assert forall|i: int| 0 <= i < vp.len() implies vp[i] != '+' by {
            if i < core.len() {
                assert(vp[i] == core[i]);
            } else if i > core.len() {
                assert(vp[i] == x[i - core.len() - 1]);
            }
        }
    }
    lemma_lacks_char(vp, '+');
    lemma_index_of_first(core, '-', x);
    assert(vp.take(core.len() as int) =~= core);
    assert(vp.skip(core.len() as int + 1) =~= x);
    assert(split_once(vp, '-') == (core, Some(x)));
    if (exists|i: int| 0 <= i < x.len() && !('0' <= #[trigger] x[i] <= '9')) || x.len() == 1 || x[0] != '0' {
        if x.len() == 1 && x[0] == '0' {
            assert(x =~= seq!['0']);
        }
        if exists|i: int| 0 <= i < x.len() && !('0' <= #[trigger] x[i] <= '9') {
            let i = choose|i: int| 0 <= i < x.len() && !('0' <= #[trigger] x[i] <= '9');
            assert(!is_digit(x[i]));
        }
        assert(valid_identifier(x, true));
        assert(valid_identifiers(x, true));
    }
}

/// `split_once` on characters.
fn split_once_exec(v: &Vec<char>, c: char) -> (r: (Vec<char>, Option<Vec<char>>))
    ensures
        r.0@ == split_once(v@, c).0,
        match r.1 {
            Some(t) => split_once(v@, c).1 == Some(t@),
            None => split_once(v@, c).1 is None,
        },
{
    match find_char(v, c) {
        Some(i) => {
            let left = slice_of(v, 0, i);
            let right = slice_of(v, i + 1, v.len());
            assert(right@ == v@.skip(i + 1));
            (left, Some(right))
        },
        None => (v.clone(), None),
    }
}

/// Whether every character is an ASCII digit.
fn digits_only(v: &Vec<char>) -> (r: bool)
    ensures
        r == all_digits(v@),
{
    let mut i: usize = 0;
    while i < v.len()
        invariant
            i <= v.len(),
            forall|j: int| 0 <= j < i ==> is_digit(#[trigger] v@[j]),
        decreases v.len() - i,
    {
        if !('0' <= v[i] && v[i] <= '9') {
            return false;
        }
        i = i + 1;
    }
    true
}

/// Whether `v` is exactly `0`.
fn zero_only(v: &Vec<char>) -> (r: bool)
    ensures
        r == is_zero(v@),
{
    let r = v.len() == 1 && v[0] == '0';
    assert(r ==> v@ =~= seq!['0']);
    r
}

/// One identifier.
fn identifier_ok(id: &Vec<char>, reject_numeric_leading_zero: bool) -> (r: bool)
    ensures
        r == valid_identifier(id@, reject_numeric_leading_zero),
{
    if id.len() == 0 {
        return false;
    }
    let mut i: usize = 0;
    while i < id.len()
        invariant
            i <= id.len(),
            forall|j: int| 0 <= j < i ==> is_identifier_char(#[trigger] id@[j]),
        decreases id.len() - i,
    {
        let c = id[i];
        if !(('a' <= c && c <= 'z') || ('A' <= c && c <= 'Z') || ('0' <= c && c <= '9') || c
            == '-') {
            return false;
        }
        i = i + 1;
    }
    !reject_numeric_leading_zero || !digits_only(id) || zero_only(id) || id[0] != '0'
}

/// Whether `value` is a non-empty list of valid dot-separated identifiers.
pub fn valid_semver_identifiers(value: &Vec<char>, reject_numeric_leading_zero: bool) -> (r: bool)
    ensures
        r == valid_identifiers(value@, reject_numeric_leading_zero),
{
    if value.len() == 0 {
        return false;
    }
    let mut dot: Vec<char> = Vec::new();
    dot.push('.');
    assert(dot@ =~= seq!['.']);
    let ids = split_on(value, &dot);
    let mut k: usize = 0;
    while k < ids.len()
        invariant
            k <= ids.len(),
            seqs(ids@) == split_any(value@, seq!['.']),
            forall|j: int| 0 <= j < k ==> valid_identifier(
                #[trigger] split_any(value@, seq!['.'])[j],
                reject_numeric_leading_zero,
            ),
        decreases ids.len() - k,
    {
        assert(split_any(value@, seq!['.'])[k as int] == ids@[k as int]@);
        if !identifier_ok(&ids[k], reject_numeric_leading_zero) {
            return false;
        }
        k = k + 1;
    }
    true
}

/// Whether `version` is a strict semantic version.
pub fn is_strict_semver(version: &str) -> (r: bool)
    ensures
        r == strict_semver(version@),
{
    let v = chars_of(version);
    if v.len() == 0 || count_of(&v, '+') > 1 {
        return false;
    }
    let (without_build, build) = split_once_exec(&v, '+');
    if let Some(b) = &build {
        if !valid_semver_identifiers(b, false) {
            return false;
        }
    }
    let (core, prerelease) = split_once_exec(&without_build, '-');
    if let Some(p) = &prerelease {
        if !valid_semver_identifiers(p, true) {
            return false;
        }
    }
    let mut dot: Vec<char> = Vec::new();
    dot.push('.');
    assert(dot@ =~= seq!['.']);
    let parts = split_on(&core, &dot);
    assert(seqs(parts@).len() == parts@.len());
    if parts.len() != 3 {
        return false;
    }
    let mut k: usize = 0;
    while k < 3
        invariant
            k <= 3,
            parts.len() == 3,
            core@ == split_once(split_once(version@, '+').0, '-').0,
            seqs(parts@) == split_any(core@, seq!['.']),
            forall|j: int| 0 <= j < k ==> valid_core_part(#[trigger] split_any(core@, seq!['.'])[j]),
        decreases 3 - k,
    {
        let part = &parts[k];
        assert(split_any(core@, seq!['.'])[k as int] == part@);
        if part.len() == 0 || !digits_only(part) || !(zero_only(part) || part[0] != '0') {
            return false;
        }
        k = k + 1;
    }
    true
}

} // verus!
