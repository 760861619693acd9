//! Configuration state and data types for the automation (playbook)
//! collaborator.
//!
//! The manager holds the inventory path, the vault password and extra
//! configuration pairs that an outer command layer passes to the
//! automation tooling. Running playbooks is subprocess work and lives
//! outside this crate; the state the runs depend on is owned and
//! specified here.

use vstd::prelude::*;
use vstd::string::StringExecFns;
use crate::text::str_chars;
use crate::text::string_from_chars;

verus! {

/// One host parsed from an inventory, with its group, its connection
/// overrides and its remaining free-form variables.
pub struct InventoryHost {
    pub name: String,
    pub group: String,
    pub variables: Vec<(String, String)>,
    pub ansible_host: Option<String>,
    pub ansible_user: Option<String>,
    pub ansible_port: Option<u16>,
}

/// Mathematical model of one inventory host.
pub ghost struct InventoryHostModel {
    pub name: Seq<char>,
    pub group: Seq<char>,
    pub variables: Seq<(Seq<char>, Seq<char>)>,
    pub ansible_host: Option<Seq<char>>,
    pub ansible_user: Option<Seq<char>>,
    pub ansible_port: Option<u16>,
}

impl View for InventoryHost {
    type V = InventoryHostModel;

    open spec fn view(&self) -> InventoryHostModel {
        InventoryHostModel {
            name: self.name@,
            group: self.group@,
            variables: self.variables@.map_values(|p: (String, String)| (p.0@, p.1@)),
            ansible_host: match self.ansible_host {
                Some(ref s) => Some(s@),
                None => None,
            },
            ansible_user: match self.ansible_user {
                Some(ref s) => Some(s@),
                None => None,
            },
            ansible_port: self.ansible_port,
        }
    }
}

/// Inline whitespace of the inventory grammar: space, tab and the
/// carriage return left by a Windows line ending.
pub open spec fn is_space(c: char) -> bool {
    c == ' ' || c == '\t' || c == '\r'
}

/// Index of the first line feed of `s`; `s.len()` when there is none.
pub open spec fn first_newline(s: Seq<char>) -> int
    decreases s.len(),
{
    if s.len() == 0 {
        0
    } else if s.first() == '\n' {
        0
    } else {
        1 + first_newline(s.drop_first())
    }
}

/// The first newline index is always in `0..=s.len()`.
pub proof fn lemma_first_newline_bounds(s: Seq<char>)
    ensures
        0 <= first_newline(s) <= s.len(),
    decreases s.len(),
{
    if s.len() > 0 && s.first() != '\n' {
        lemma_first_newline_bounds(s.drop_first());
    }
}

/// The lines of `s`: maximal runs separated by line feeds, the final
/// line ending optional.
pub open spec fn line_split(s: Seq<char>) -> Seq<Seq<char>>
    decreases s.len(),
    via line_split_decreases
{
    if s.len() == 0 {
        Seq::empty()
    } else {
        let i = first_newline(s);
        if i == s.len() {
            seq![s]
        } else {
            seq![s.take(i)] + line_split(s.skip(i + 1))
        }
    }
}

#[via_fn]
proof fn line_split_decreases(s: Seq<char>) {
    lemma_first_newline_bounds(s);
}

/// `s` without its leading inline whitespace.
pub open spec fn trim_start_spec(s: Seq<char>) -> Seq<char>
    decreases s.len(),
{
    if s.len() > 0 && is_space(s.first()) {
        trim_start_spec(s.drop_first())
    } else {
        s
    }
}

/// `s` without its trailing inline whitespace.
pub open spec fn trim_end_spec(s: Seq<char>) -> Seq<char>
    decreases s.len(),
{
    if s.len() > 0 && is_space(s.last()) {
        trim_end_spec(s.drop_last())
    } else {
        s
    }
}

/// `s` without leading and trailing inline whitespace.
pub open spec fn trim_spec(s: Seq<char>) -> Seq<char> {
    trim_end_spec(trim_start_spec(s))
}

/// Index of the first inline whitespace character of `s`; `s.len()`
/// when there is none.
pub open spec fn first_space(s: Seq<char>) -> int
    decreases s.len(),
{
    if s.len() == 0 {
        0
    } else if is_space(s.first()) {
        0
    } else {
        1 + first_space(s.drop_first())
    }
}

/// The first whitespace index is always in `0..=s.len()`.
pub proof fn lemma_first_space_bounds(s: Seq<char>)
    ensures
        0 <= first_space(s) <= s.len(),
    decreases s.len(),
{
    if s.len() > 0 && !is_space(s.first()) {
        lemma_first_space_bounds(s.drop_first());
    }
}

/// The whitespace-separated tokens of `s`, in order.
pub open spec fn tokens_of(s: Seq<char>) -> Seq<Seq<char>>
    decreases s.len(),
    via tokens_of_decreases
{
    if s.len() == 0 {
        Seq::empty()
    } else if is_space(s.first()) {
        tokens_of(s.drop_first())
    } else {
        let i = first_space(s);
        seq![s.take(i)] + tokens_of(s.skip(i))
    }
}

#[via_fn]
proof fn tokens_of_decreases(s: Seq<char>) {
    lemma_first_space_bounds(s);
    if s.len() > 0 && !is_space(s.first()) {
        lemma_first_space_bounds(s.drop_first());
    }
}

/// Index of the first `=` of `s`; `s.len()` when there is none.
pub open spec fn first_eq(s: Seq<char>) -> int
    decreases s.len(),
{
    if s.len() == 0 {
        0
    } else if s.first() == '=' {
        0
    } else {
        1 + first_eq(s.drop_first())
    }
}

/// `s` split at its first `=` into key and value; `None` when `s`
/// holds no `=`.
pub open spec fn split_eq(s: Seq<char>) -> Option<(Seq<char>, Seq<char>)> {
    let i = first_eq(s);
    if i == s.len() {
        None
    } else {
        Some((s.take(i), s.skip(i + 1)))
    }
}

/// Whether `c` is a decimal digit.
pub open spec fn is_digit(c: char) -> bool {
    '0' as u32 <= c as u32 <= '9' as u32
}

/// Whether `s` is one or more decimal digits.
pub open spec fn all_digits(s: Seq<char>) -> bool {
    s.len() > 0 && forall|i: int| 0 <= i < s.len() ==> is_digit(#[trigger] s[i])
}

/// The number the digit string `s` denotes.
pub open spec fn digits_value(s: Seq<char>) -> int
    decreases s.len(),
{
    if s.len() == 0 {
        0
    } else {
        digits_value(s.drop_last()) * 10 + (s.last() as u32 - '0' as u32)
    }
}

/// The port number `s` denotes: an optional leading `+`, then decimal
/// digits, in range; anything else denotes none.
pub open spec fn parse_u16_spec(s: Seq<char>) -> Option<u16> {
    let t = if s.len() > 0 && s.first() == '+' {
        s.drop_first()
    } else {
        s
    };
    if all_digits(t) && digits_value(t) <= u16::MAX {
        Some(digits_value(t) as u16)
    } else {
        None
    }
}

/// A freshly seen host: name and current group, nothing else yet.
pub open spec fn host_start(name: Seq<char>, group: Seq<char>) -> InventoryHostModel {
    InventoryHostModel {
        name,
        group,
        variables: Seq::empty(),
        ansible_host: None,
        ansible_user: None,
        ansible_port: None,
    }
}

/// One `key=value` token applied to a host: the three reserved keys
/// set their connection override, every other pair is kept as a
/// variable, and a token without `=` is ignored.
pub open spec fn apply_var(h: InventoryHostModel, tok: Seq<char>) -> InventoryHostModel {
    match split_eq(tok) {
        None => h,
        Some((key, value)) => {
            if key == "ansible_host"@ {
                InventoryHostModel { ansible_host: Some(value), ..h }
            } else if key == "ansible_user"@ {
                InventoryHostModel { ansible_user: Some(value), ..h }
            } else if key == "ansible_port"@ {
                InventoryHostModel { ansible_port: parse_u16_spec(value), ..h }
            } else {
                InventoryHostModel { variables: h.variables.push((key, value)), ..h }
            }
        },
    }
}

/// The tokens applied to a host in order.
pub open spec fn apply_vars(h: InventoryHostModel, toks: Seq<Seq<char>>) -> InventoryHostModel
    decreases toks.len(),
{
    if toks.len() == 0 {
        h
    } else {
        apply_vars(apply_var(h, toks.first()), toks.drop_first())
    }
}

/// The host a trimmed host line denotes under the current group: the
/// first token names it, the rest are its variables.
pub open spec fn host_of_line(t: Seq<char>, group: Seq<char>) -> InventoryHostModel {
    let toks = tokens_of(t);
    apply_vars(host_start(toks.first(), group), toks.drop_first())
}

/// Whether a trimmed line opens a group: bracketed on both ends.
pub open spec fn is_group_line(t: Seq<char>) -> bool {
    t.len() > 0 && t.first() == '[' && t.last() == ']'
}

/// The group name a group line carries, brackets stripped.
pub open spec fn group_of_line(t: Seq<char>) -> Seq<char> {
    t.subrange(1, t.len() - 1)
}

/// The hosts the given lines denote, reading top to bottom under the
/// current group: a group line switches the group, a comment or blank
/// line is skipped, and any other line adds one host.
pub open spec fn parse_lines(lines: Seq<Seq<char>>, group: Seq<char>) -> Seq<InventoryHostModel>
    decreases lines.len(),
{
    if lines.len() == 0 {
        Seq::empty()
    } else {
        let t = trim_spec(lines.first());
        if is_group_line(t) {
            parse_lines(lines.drop_first(), group_of_line(t))
        } else if t.len() > 0 && t.first() != '#' {
            seq![host_of_line(t, group)] + parse_lines(lines.drop_first(), group)
        } else {
            parse_lines(lines.drop_first(), group)
        }
    }
}

/// The hosts an inventory text denotes: its lines read under the
/// starting group `ungrouped`.
pub open spec fn inventory_spec(content: Seq<char>) -> Seq<InventoryHostModel> {
    parse_lines(line_split(content), "ungrouped"@)
}

/// `first_newline` names the index before which no line feed stands
/// and at which one stands, if anywhere.
proof fn lemma_first_newline_at(s: Seq<char>, i: int)
    requires
        0 <= i <= s.len(),
        forall|k: int| 0 <= k < i ==> s[k] != '\n',
        i < s.len() ==> s[i] == '\n',
    ensures
        first_newline(s) == i,
    decreases i,
{
    if i == 0 {
    } else {
        assert(s[0] != '\n');
        lemma_first_newline_at(s.drop_first(), i - 1);
    }
}

/// `first_space` names the index before which no inline whitespace
/// stands and at which some stands, if anywhere.
proof fn lemma_first_space_at(s: Seq<char>, i: int)
    requires
        0 <= i <= s.len(),
        forall|k: int| 0 <= k < i ==> !is_space(s[k]),
        i < s.len() ==> is_space(s[i]),
    ensures
        first_space(s) == i,
    decreases i,
{
    if i == 0 {
    } else {
        assert(!is_space(s[0]));
        lemma_first_space_at(s.drop_first(), i - 1);
    }
}

/// `first_eq` names the index before which no `=` stands and at which
/// one stands, if anywhere.
proof fn lemma_first_eq_at(s: Seq<char>, i: int)
    requires
        0 <= i <= s.len(),
        forall|k: int| 0 <= k < i ==> s[k] != '=',
        i < s.len() ==> s[i] == '=',
    ensures
        first_eq(s) == i,
    decreases i,
{
    if i == 0 {
    } else {
        assert(s[0] != '=');
        lemma_first_eq_at(s.drop_first(), i - 1);
    }
}

/// Dropping exactly the leading whitespace is what `trim_start_spec`
/// does.
proof fn lemma_trim_start_at(s: Seq<char>, i: int)
    requires
        0 <= i <= s.len(),
        forall|k: int| 0 <= k < i ==> is_space(s[k]),
        i < s.len() ==> !is_space(s[i]),
    ensures
        trim_start_spec(s) == s.skip(i),
    decreases i,
{
    if i == 0 {
        assert(s.skip(0) =~= s);
    } else {
        assert(is_space(s[0]));
        lemma_trim_start_at(s.drop_first(), i - 1);
        assert(s.drop_first().skip(i - 1) =~= s.skip(i));
    }
}

/// Dropping exactly the trailing whitespace is what `trim_end_spec`
/// does.
proof fn lemma_trim_end_at(s: Seq<char>, j: int)
    requires
        0 <= j <= s.len(),
        forall|k: int| j <= k < s.len() ==> is_space(s[k]),
        j > 0 ==> !is_space(s[j - 1]),
    ensures
        trim_end_spec(s) == s.take(j),
    decreases s.len() - j,
{
    if j == s.len() {
        assert(s.take(j) =~= s);
    } else {
        assert(is_space(s.last()));
        lemma_trim_end_at(s.drop_last(), j);
        assert(s.drop_last().take(j) =~= s.take(j));
    }
}

/// Whether `c` is inline whitespace.
fn is_space_char(c: char) -> (r: bool)
    ensures
        r == is_space(c),
{
    c == ' ' || c == '\t' || c == '\r'
}

/// Copies the characters `v[from..to]` into a fresh vector.
fn copy_range(v: &Vec<char>, from: usize, to: usize) -> (r: Vec<char>)
    requires
        from <= to <= v@.len(),
    ensures
        r@ == v@.subrange(from as int, to as int),
{
    let mut out: Vec<char> = Vec::new();
    let mut i: usize = from;
    while i < to
        invariant
            from <= i <= to <= v@.len(),
            out@ == v@.subrange(from as int, i as int),
        decreases to - i,
    {
        out.push(v[i]);
        proof {
            assert(out@ =~= v@.subrange(from as int, i + 1 as int));
        }
        i = i + 1;
    }
    out
}

/// Strips leading and trailing inline whitespace from a line.
fn trim_chars(v: &Vec<char>) -> (r: Vec<char>)
    ensures
        r@ == trim_spec(v@),
{
    let mut start: usize = 0;
    while start < v.len() && is_space_char(v[start])
        invariant
            start <= v@.len(),
            forall|k: int| 0 <= k < start ==> is_space(v@[k]),
        decreases v@.len() - start,
    {
        start = start + 1;
    }
    let mut end: usize = v.len();
    while end > start && is_space_char(v[end - 1])
        invariant
            start <= end <= v@.len(),
            forall|k: int| 0 <= k < start ==> is_space(v@[k]),
            forall|k: int| end <= k < v@.len() ==> is_space(v@[k]),
        decreases end,
    {
        end = end - 1;
    }
    proof {
        lemma_trim_start_at(v@, start as int);
        let t = v@.skip(start as int);
        lemma_trim_end_at(t, end - start as int);
        assert(t.take(end - start as int) =~= v@.subrange(start as int, end as int));
    }
    copy_range(v, start, end)
}

/// Splits a trimmed line into its whitespace-separated tokens.
fn tokenize(v: &Vec<char>) -> (r: Vec<Vec<char>>)
    ensures
        r@.map_values(|t: Vec<char>| t@) =~= tokens_of(v@),
{
    let mut out: Vec<Vec<char>> = Vec::new();
    let mut pos: usize = 0;
    proof {
        assert(v@.skip(0) =~= v@);
        assert(out@.map_values(|t: Vec<char>| t@) + tokens_of(v@) =~= tokens_of(v@));
    }
    while pos < v.len()
        invariant
            pos <= v@.len(),
            tokens_of(v@) =~= out@.map_values(|t: Vec<char>| t@) + tokens_of(
                v@.skip(pos as int),
            ),
        decreases v@.len() - pos,
    {
        if is_space_char(v[pos]) {
            proof {
                assert(v@.skip(pos as int).drop_first() =~= v@.skip(pos + 1 as int));
            }
            pos = pos + 1;
        } else {
            let tstart = pos;
            pos = pos + 1;
            while pos < v.len() && !is_space_char(v[pos])
                invariant
                    tstart < pos <= v@.len(),
                    forall|k: int| tstart <= k < pos ==> !is_space(v@[k]),
                decreases v@.len() - pos,
            {
                pos = pos + 1;
            }
            let tok = copy_range(v, tstart, pos);
            proof {
                let s = v@.skip(tstart as int);
                lemma_first_space_at(s, pos - tstart as int);
                assert(s.take(pos - tstart as int) =~= v@.subrange(tstart as int, pos as int));
                assert(s.skip(pos - tstart as int) =~= v@.skip(pos as int));
                assert(tokens_of(s) == seq![tok@] + tokens_of(v@.skip(pos as int)));
                assert(out@.map_values(|t: Vec<char>| t@).push(tok@) + tokens_of(
                    v@.skip(pos as int),
                ) =~= out@.map_values(|t: Vec<char>| t@) + tokens_of(s));
                assert(out@.push(tok).map_values(|t: Vec<char>| t@) =~= out@.map_values(
                    |t: Vec<char>| t@,
                ).push(tok@));
            }
            out.push(tok);
        }
    }
    proof {
        assert(v@.skip(v@.len() as int) =~= Seq::<char>::empty());
        assert(tokens_of(Seq::<char>::empty()) =~= Seq::<Seq<char>>::empty());
    }
    out
}

/// A digit string's value is never negative.
proof fn lemma_digits_value_nonneg(s: Seq<char>)
    requires
        forall|i: int| 0 <= i < s.len() ==> is_digit(#[trigger] s[i]),
    ensures
        digits_value(s) >= 0,
    decreases s.len(),
{
    if s.len() > 0 {
        lemma_digits_value_nonneg(s.drop_last());
    }
}

/// A digit string's value only grows as digits are appended: every
/// prefix denotes at most the whole.
proof fn lemma_digits_prefix_le(s: Seq<char>, i: int)
    requires
        forall|k: int| 0 <= k < s.len() ==> is_digit(#[trigger] s[k]),
        0 <= i <= s.len(),
    ensures
        digits_value(s.take(i)) <= digits_value(s),
    decreases s.len(),
{
    if i == s.len() {
        assert(s.take(i) =~= s);
    } else {
        assert(s.drop_last().take(i) =~= s.take(i));
        lemma_digits_prefix_le(s.drop_last(), i);
        lemma_digits_value_nonneg(s.drop_last());
    }
}

/// Parses a port number: an optional leading `+`, then decimal digits
/// denoting a value in range; anything else is `None`.
fn parse_port(v: &Vec<char>) -> (r: Option<u16>)
    ensures
        r == parse_u16_spec(v@),
{
    let start: usize = if v.len() > 0 && v[0] == '+' {
        1
    } else {
        0
    };
    let ghost t = if v@.len() > 0 && v@.first() == '+' {
        v@.drop_first()
    } else {
        v@
    };
    proof {
        assert(t =~= v@.skip(start as int));
    }
    if start == v.len() {
        return None;
    }
    let mut value: u32 = 0;
    let mut i: usize = start;
    while i < v.len()
        invariant
            start <= i <= v@.len(),
            start < v@.len(),
            t == v@.skip(start as int),
            t == (if v@.len() > 0 && v@.first() == '+' {
                v@.drop_first()
            } else {
                v@
            }),
            forall|k: int| start <= k < i ==> is_digit(#[trigger] v@[k]),
            value <= 65535,
            value as int == digits_value(t.take(i - start as int)),
        decreases v@.len() - i,
    {
        let c = v[i];
        let code = c as u32;
        if code < 48 || code > 57 {
            proof {
                assert(t[i - start as int] == v@[i as int]);
                assert(!is_digit(t[i - start as int]));
                assert(!all_digits(t));
            }
            return None;
        }
        let d = code - 48;
        proof {
            assert(is_digit(v@[i as int]));
            assert(t.take(i + 1 - start as int).drop_last() =~= t.take(i - start as int));
            assert(digits_value(t.take(i + 1 - start as int)) == value as int * 10 + d);
        }
        if value > 6553 || (value == 6553 && d > 5) {
            proof {
                if all_digits(t) {
                    lemma_digits_prefix_le(t, i + 1 - start as int);
                }
            }
            return None;
        }
        value = value * 10 + d;
        i = i + 1;
    }
    proof {
        assert(t.take(v@.len() - start as int) =~= t);
        assert(all_digits(t));
    }
    Some(value as u16)
}

/// Position of the first `=` of a token, if any.
fn find_eq(v: &Vec<char>) -> (r: Option<usize>)
    ensures
        match r {
            Some(i) => i < v@.len() && first_eq(v@) == i,
            None => first_eq(v@) == v@.len(),
        },
{
    let mut i: usize = 0;
    while i < v.len()
        invariant
            i <= v@.len(),
            forall|k: int| 0 <= k < i ==> v@[k] != '=',
        decreases v@.len() - i,
    {
        if v[i] == '=' {
            proof {
                lemma_first_eq_at(v@, i as int);
            }
            return Some(i);
        }
        i = i + 1;
    }
    proof {
        lemma_first_eq_at(v@, v@.len() as int);
    }
    None
}

/// Outcome summary of one playbook run.
pub struct ExecutionResult {
    pub playbook: String,
    pub status: String,
    pub output: String,
    pub changed: usize,
    pub unreachable: usize,
    pub failed: usize,
    pub skipped: usize,
    pub ok: usize,
}

/// Mathematical model of the manager's configuration state.
pub ghost struct AnsibleConfigModel {
    pub inventory_path: Option<Seq<char>>,
    pub vault_password: Option<Seq<char>>,
    pub ansible_config: Seq<(Seq<char>, Seq<char>)>,
}

/// A trimmed-from-the-start string is empty or opens with
/// non-whitespace.
proof fn lemma_trim_start_first(s: Seq<char>)
    ensures
        trim_start_spec(s).len() > 0 ==> !is_space(trim_start_spec(s).first()),
    decreases s.len(),
{
    if s.len() > 0 && is_space(s.first()) {
        lemma_trim_start_first(s.drop_first());
    }
}

/// Trimming the end keeps the first character, while one remains.
proof fn lemma_trim_end_first(s: Seq<char>)
    ensures
        trim_end_spec(s).len() > 0 ==> trim_end_spec(s).first() == s.first(),
    decreases s.len(),
{
    if s.len() > 0 && is_space(s.last()) {
        lemma_trim_end_first(s.drop_last());
    }
}

/// A trimmed line is empty or opens with non-whitespace.
proof fn lemma_trim_first_non_space(s: Seq<char>)
    ensures
        trim_spec(s).len() > 0 ==> !is_space(trim_spec(s).first()),
{
    lemma_trim_start_first(s);
    lemma_trim_end_first(trim_start_spec(s));
}

/// Parses an inventory text into its hosts: lines read top to bottom,
/// `[group]` lines switching the current group, `#` comments and blank
/// lines skipped, and every other line naming one host followed by
/// `key=value` pairs. The reserved keys `ansible_host`, `ansible_user`
/// and `ansible_port` set the host's connection overrides; all other
/// pairs are kept as free-form variables.
pub fn parse_inventory(content: &str) -> (r: Vec<InventoryHost>)
    ensures
        r@.map_values(|h: InventoryHost| h@) =~= inventory_spec(content@),
{
    let chars = str_chars(content);
    let mut hosts: Vec<InventoryHost> = Vec::new();
    let mut group: String = "ungrouped".to_owned();
    let mut pos: usize = 0;
    proof {
        assert(chars@.skip(0) =~= chars@);
        assert(hosts@.map_values(|h: InventoryHost| h@) + parse_lines(
            line_split(chars@),
            "ungrouped"@,
        ) =~= inventory_spec(content@));
    }
    while pos < chars.len()
        invariant
            pos <= chars@.len(),
            inventory_spec(content@) =~= hosts@.map_values(|h: InventoryHost| h@) + parse_lines(
                line_split(chars@.skip(pos as int)),
                group@,
            ),
        decreases chars@.len() - pos,
    {
        let lstart = pos;
        let mut lend = pos;
        while lend < chars.len() && chars[lend] != '\n'
            invariant
                lstart <= lend <= chars@.len(),
                forall|k: int| lstart <= k < lend ==> chars@[k] != '\n',
            decreases chars@.len() - lend,
        {
            lend = lend + 1;
        }
        let ghost s = chars@.skip(lstart as int);
        let ghost lines = line_split(s);
        let ghost g0 = group@;
        proof {
            lemma_first_newline_at(s, lend - lstart as int);
            assert(s.take(lend - lstart as int) =~= chars@.subrange(lstart as int, lend as int));
            if lend < chars@.len() {
                assert(s.skip(lend - lstart + 1 as int) =~= chars@.skip(lend + 1 as int));
                assert(lines == seq![s.take(lend - lstart as int)] + line_split(
                    chars@.skip(lend + 1 as int),
                ));
                assert(lines.first() == chars@.subrange(lstart as int, lend as int));
                assert(lines.drop_first() =~= line_split(chars@.skip(lend + 1 as int)));
            } else {
                assert(s =~= chars@.subrange(lstart as int, lend as int));
                assert(lines == seq![s]);
                assert(lines.first() == chars@.subrange(lstart as int, lend as int));
                assert(lines.drop_first() =~= Seq::<Seq<char>>::empty());
                assert(chars@.skip(lend as int) =~= Seq::<char>::empty());
                assert(lines.drop_first() =~= line_split(chars@.skip(lend as int)));
            }
        }
        let next_pos = if lend < chars.len() {
            lend + 1
        } else {
            lend
        };
        proof {
            assert(lines.drop_first() =~= line_split(chars@.skip(next_pos as int)));
        }
        let line = copy_range(&chars, lstart, lend);
        let t = trim_chars(&line);
        let ghost tm = trim_spec(lines.first());
        proof {
            assert(t@ == tm);
        }
        if t.len() > 0 && t[0] == '[' && t[t.len() - 1] == ']' {
            let g = copy_range(&t, 1, t.len() - 1);
            group = string_from_chars(g.as_slice());
            proof {
                assert(is_group_line(tm));
                assert(group@ == group_of_line(tm));
                assert(parse_lines(lines, g0) == parse_lines(lines.drop_first(), group@));
            }
        } else if t.len() > 0 && t[0] != '#' {
            proof {
                lemma_trim_first_non_space(lines.first());
                assert(!is_space(tm.first()));
            }
            let tokens = tokenize(&t);
            let ghost toks = tokens_of(tm);
            proof {
                lemma_first_space_bounds(tm);
                assert(toks == seq![tm.take(first_space(tm))] + tokens_of(
                    tm.skip(first_space(tm)),
                ));
                assert(toks.len() >= 1);
                assert(tokens@.map_values(|x: Vec<char>| x@) =~= toks);
                assert(tokens@[0]@ == toks.first());
            }
            let name = string_from_chars(tokens[0].as_slice());
            let mut host = InventoryHost {
                name,
                group: group.clone(),
                variables: Vec::new(),
                ansible_host: None,
                ansible_user: None,
                ansible_port: None,
            };
            proof {
                assert(host@.variables =~= Seq::<(Seq<char>, Seq<char>)>::empty());
                assert(host@ == host_start(toks.first(), g0));
            }
            let mut j: usize = 1;
            while j < tokens.len()
                invariant
                    1 <= j <= tokens@.len(),
                    tokens@.map_values(|x: Vec<char>| x@) == toks,
                    apply_vars(host@, toks.skip(j as int)) == apply_vars(
                        host_start(toks.first(), g0),
                        toks.drop_first(),
                    ),
                decreases tokens@.len() - j,
            {
                let ghost h0 = host@;
                let ghost tok_model = toks[j as int];
                proof {
                    assert(toks.skip(j as int).first() == tok_model);
                    assert(toks.skip(j as int).drop_first() =~= toks.skip(j + 1 as int));
                }
                let tok = &tokens[j];
                match find_eq(tok) {
                    None => {
                        proof {
                            assert(split_eq(tok_model) is None);
                            assert(apply_var(h0, tok_model) == h0);
                        }
                    },
                    Some(e) => {
                        proof {
                            assert(e < tok@.len());
                        }
                        let key = copy_range(tok, 0, e);
                        let tok_len = tok.len();
                        let val = copy_range(tok, e + 1, tok_len);
                        proof {
                            assert(tok_model.take(e as int) =~= key@);
                            assert(tok_model.skip(e + 1 as int) =~= val@);
                            assert(split_eq(tok_model) == Some((key@, val@)));
                        }
                        let key_string = string_from_chars(key.as_slice());
                        if crate::text::str_eq(key_string.as_str(), "ansible_host") {
                            host.ansible_host = Some(string_from_chars(val.as_slice()));
                        } else if crate::text::str_eq(key_string.as_str(), "ansible_user") {
                            host.ansible_user = Some(string_from_chars(val.as_slice()));
                        } else if crate::text::str_eq(key_string.as_str(), "ansible_port") {
                            host.ansible_port = parse_port(&val);
                        } else {
                            host.variables.push((key_string, string_from_chars(val.as_slice())));
                            proof {
                                assert(host@.variables =~= h0.variables.push((key@, val@)));
                            }
                        }
                        proof {
                            assert(host@ == apply_var(h0, tok_model));
                        }
                    },
                }
                j = j + 1;
            }
            proof {
                assert(toks.skip(toks.len() as int) =~= Seq::<Seq<char>>::empty());
                assert(host@ == host_of_line(tm, g0));
                assert(parse_lines(lines, g0) == seq![host@] + parse_lines(
                    lines.drop_first(),
                    g0,
                ));
                assert(hosts@.push(host).map_values(|h: InventoryHost| h@) =~= hosts@.map_values(
                    |h: InventoryHost| h@,
                ).push(host@));
                assert(hosts@.map_values(|h: InventoryHost| h@).push(host@) + parse_lines(
                    lines.drop_first(),
                    g0,
                ) =~= hosts@.map_values(|h: InventoryHost| h@) + parse_lines(lines, g0));
            }
            hosts.push(host);
        } else {
            proof {
                assert(!is_group_line(tm));
                assert(parse_lines(lines, g0) == parse_lines(lines.drop_first(), g0));
            }
        }
        pos = next_pos;
    }
    proof {
        assert(chars@.skip(pos as int) =~= Seq::<char>::empty());
        assert(line_split(Seq::<char>::empty()) =~= Seq::<Seq<char>>::empty());
        assert(hosts@.map_values(|h: InventoryHost| h@) + parse_lines(
            Seq::<Seq<char>>::empty(),
            group@,
        ) =~= hosts@.map_values(|h: InventoryHost| h@));
    }
    hosts
}

/// The trimmed, non-empty lines among `lines`, in order.
pub open spec fn nonblank_trimmed(lines: Seq<Seq<char>>) -> Seq<Seq<char>>
    decreases lines.len(),
{
    if lines.len() == 0 {
        Seq::empty()
    } else {
        let t = trim_spec(lines.first());
        if t.len() > 0 {
            seq![t] + nonblank_trimmed(lines.drop_first())
        } else {
            nonblank_trimmed(lines.drop_first())
        }
    }
}

/// The host names a host-listing output denotes: every line but the
/// leading header, trimmed, blank lines dropped.
pub open spec fn host_list_spec(content: Seq<char>) -> Seq<Seq<char>> {
    let lines = line_split(content);
    if lines.len() == 0 {
        Seq::empty()
    } else {
        nonblank_trimmed(lines.drop_first())
    }
}

/// Extracts host names from a host-listing output: the first line is
/// a header and is skipped, every further line is trimmed, and blank
/// lines are dropped.
pub fn parse_host_list(output: &str) -> (r: Vec<String>)
    ensures
        r@.map_values(|s: String| s@) =~= host_list_spec(output@),
{
    let chars = str_chars(output);
    let mut hosts: Vec<String> = Vec::new();
    let mut pos: usize = 0;
    let mut header = true;
    proof {
        assert(chars@.skip(0) =~= chars@);
    }
    while pos < chars.len()
        invariant
            pos <= chars@.len(),
            header ==> pos == 0 && hosts@.len() == 0,
            !header ==> host_list_spec(chars@) =~= hosts@.map_values(|s: String| s@)
                + nonblank_trimmed(line_split(chars@.skip(pos as int))),
        decreases chars@.len() - pos,
    {
        let lstart = pos;
        let mut lend = pos;
        while lend < chars.len() && chars[lend] != '\n'
            invariant
                lstart <= lend <= chars@.len(),
                forall|k: int| lstart <= k < lend ==> chars@[k] != '\n',
            decreases chars@.len() - lend,
        {
            lend = lend + 1;
        }
        let ghost s = chars@.skip(lstart as int);
        let ghost lines = line_split(s);
        proof {
            lemma_first_newline_at(s, lend - lstart as int);
            assert(s.take(lend - lstart as int) =~= chars@.subrange(lstart as int, lend as int));
            if lend < chars@.len() {
                assert(s.skip(lend - lstart + 1 as int) =~= chars@.skip(lend + 1 as int));
                assert(lines.first() == chars@.subrange(lstart as int, lend as int));
                assert(lines.drop_first() =~= line_split(chars@.skip(lend + 1 as int)));
            } else {
                assert(s =~= chars@.subrange(lstart as int, lend as int));
                assert(lines == seq![s]);
                assert(lines.first() == chars@.subrange(lstart as int, lend as int));
                assert(chars@.skip(lend as int) =~= Seq::<char>::empty());
                assert(lines.drop_first() =~= line_split(chars@.skip(lend as int)));
            }
        }
        let next_pos = if lend < chars.len() {
            lend + 1
        } else {
            lend
        };
        proof {
            assert(lines.drop_first() =~= line_split(chars@.skip(next_pos as int)));
        }
        if header {
            header = false;
            proof {
                assert(s =~= chars@);
                assert(lines == line_split(chars@));
                assert(lines.len() > 0);
                assert(host_list_spec(chars@) =~= nonblank_trimmed(lines.drop_first()));
                assert(hosts@.map_values(|x: String| x@) =~= Seq::<Seq<char>>::empty());
            }
        } else {
            let line = copy_range(&chars, lstart, lend);
            let t = trim_chars(&line);
            let ghost tm = trim_spec(lines.first());
            proof {
                assert(t@ == tm);
                assert(nonblank_trimmed(lines) == if tm.len() > 0 {
                    seq![tm] + nonblank_trimmed(lines.drop_first())
                } else {
                    nonblank_trimmed(lines.drop_first())
                });
            }
            if t.len() > 0 {
                let name = string_from_chars(t.as_slice());
                proof {
                    assert(hosts@.push(name).map_values(|x: String| x@) =~= hosts@.map_values(
                        |x: String| x@,
                    ).push(tm));
                    assert(hosts@.map_values(|x: String| x@).push(tm) + nonblank_trimmed(
                        lines.drop_first(),
                    ) =~= hosts@.map_values(|x: String| x@) + nonblank_trimmed(lines));
                }
                hosts.push(name);
            }
        }
        pos = next_pos;
    }
    proof {
        assert(chars@.skip(pos as int) =~= Seq::<char>::empty());
        assert(line_split(Seq::<char>::empty()) =~= Seq::<Seq<char>>::empty());
        if pos == 0 {
            assert(line_split(chars@).len() == 0);
        }
    }
    hosts
}

/// One task of a playbook. `parameters` holds the task's module
/// parameters as rendered key/value pairs, in order.
pub struct TaskInfo {
    pub name: String,
    pub module: String,
    pub parameters: Vec<(String, String)>,
    pub tags: Vec<String>,
}

/// One playbook: where it lives, whom it targets, and what it runs.
pub struct PlaybookInfo {
    pub name: String,
    pub path: String,
    pub hosts: Vec<String>,
    pub tasks: Vec<TaskInfo>,
    pub variables: Vec<(String, String)>,
}

/// Mathematical model of one task.
pub ghost struct TaskInfoModel {
    pub name: Seq<char>,
    pub module: Seq<char>,
    pub parameters: Seq<(Seq<char>, Seq<char>)>,
    pub tags: Seq<Seq<char>>,
}

/// Mathematical model of one playbook.
pub ghost struct PlaybookInfoModel {
    pub name: Seq<char>,
    pub path: Seq<char>,
    pub hosts: Seq<Seq<char>>,
    pub tasks: Seq<TaskInfoModel>,
    pub variables: Seq<(Seq<char>, Seq<char>)>,
}

impl View for TaskInfo {
    type V = TaskInfoModel;

    open spec fn view(&self) -> TaskInfoModel {
        TaskInfoModel {
            name: self.name@,
            module: self.module@,
            parameters: self.parameters@.map_values(|p: (String, String)| (p.0@, p.1@)),
            tags: self.tags@.map_values(|t: String| t@),
        }
    }
}

impl View for PlaybookInfo {
    type V = PlaybookInfoModel;

    open spec fn view(&self) -> PlaybookInfoModel {
        PlaybookInfoModel {
            name: self.name@,
            path: self.path@,
            hosts: self.hosts@.map_values(|h: String| h@),
            tasks: self.tasks@.map_values(|t: TaskInfo| t@),
            variables: self.variables@.map_values(|p: (String, String)| (p.0@, p.1@)),
        }
    }
}

/// The rest of a comma join: a separator before every remaining item.
pub open spec fn sep_rest(items: Seq<Seq<char>>, sep: Seq<char>) -> Seq<char>
    decreases items.len(),
{
    if items.len() == 0 {
        Seq::empty()
    } else {
        sep + items.first() + sep_rest(items.drop_first(), sep)
    }
}

/// The items joined with the separator between neighbours.
pub open spec fn sep_joined(items: Seq<Seq<char>>, sep: Seq<char>) -> Seq<char> {
    if items.len() == 0 {
        Seq::empty()
    } else {
        items.first() + sep_rest(items.drop_first(), sep)
    }
}

/// One rendered `key: value` line per pair, under the given indent.
pub open spec fn pair_lines(pairs: Seq<(Seq<char>, Seq<char>)>, indent: Seq<char>) -> Seq<char>
    decreases pairs.len(),
{
    if pairs.len() == 0 {
        Seq::empty()
    } else {
        indent + pairs.first().0 + ": "@ + pairs.first().1 + "\n"@ + pair_lines(
            pairs.drop_first(),
            indent,
        )
    }
}

/// The rendered block of one task: its name, its module with its
/// parameters, and its tags when it has any.
pub open spec fn task_block(t: TaskInfoModel) -> Seq<char> {
    "    - name: "@ + t.name + "\n"@ + "      "@ + t.module + ": \n"@ + pair_lines(
        t.parameters,
        "        "@,
    ) + if t.tags.len() > 0 {
        "      tags: "@ + sep_joined(t.tags, ", "@) + "\n"@
    } else {
        Seq::empty()
    }
}

/// The rendered blocks of all tasks, in order.
pub open spec fn task_lines(tasks: Seq<TaskInfoModel>) -> Seq<char>
    decreases tasks.len(),
{
    if tasks.len() == 0 {
        Seq::empty()
    } else {
        task_block(tasks.first()) + task_lines(tasks.drop_first())
    }
}

/// The rendered playbook: header, name, hosts, the vars block when
/// variables exist, and the task list.
pub open spec fn playbook_yaml_spec(p: PlaybookInfoModel) -> Seq<char> {
    "---\n"@ + "- name: "@ + p.name + "\n"@ + "  hosts: "@ + sep_joined(p.hosts, ","@) + "\n"@
        + (if p.variables.len() > 0 {
        "  vars:\n"@ + pair_lines(p.variables, "    "@)
    } else {
        Seq::<char>::empty()
    }) + "  tasks:\n"@ + task_lines(p.tasks)
}

/// Appends the items joined with the separator.
fn append_joined(out: &mut String, items: &Vec<String>, sep: &str)
    ensures
        final(out)@ == old(out)@ + sep_joined(items@.map_values(|s: String| s@), sep@),
{
    let ghost models = items@.map_values(|s: String| s@);
    let ghost target = old(out)@ + sep_joined(models, sep@);
    if items.len() == 0 {
        proof {
            assert(target =~= old(out)@);
        }
        return ;
    }
    out.append(items[0].as_str());
    proof {
        assert(target =~= out@ + sep_rest(models.skip(1), sep@));
    }
    let mut i: usize = 1;
    while i < items.len()
        invariant
            1 <= i <= items@.len(),
            models == items@.map_values(|s: String| s@),
            target == out@ + sep_rest(models.skip(i as int), sep@),
        decreases items@.len() - i,
    {
        proof {
            assert(models.skip(i as int).drop_first() =~= models.skip(i + 1 as int));
        }
        out.append(sep);
        out.append(items[i].as_str());
        proof {
            assert(target =~= out@ + sep_rest(models.skip(i + 1 as int), sep@));
        }
        i = i + 1;
    }
    proof {
        assert(sep_rest(models.skip(items@.len() as int), sep@) =~= Seq::<char>::empty());
        assert(target =~= out@);
    }
}

/// Appends one `key: value` line per pair under the given indent.
fn append_pair_lines(out: &mut String, pairs: &Vec<(String, String)>, indent: &str)
    ensures
        final(out)@ == old(out)@ + pair_lines(
            pairs@.map_values(|p: (String, String)| (p.0@, p.1@)),
            indent@,
        ),
{
    let ghost models = pairs@.map_values(|p: (String, String)| (p.0@, p.1@));
    let ghost target = old(out)@ + pair_lines(models, indent@);
    let mut i: usize = 0;
    proof {
        assert(models.skip(0) =~= models);
    }
    while i < pairs.len()
        invariant
            i <= pairs@.len(),
            models == pairs@.map_values(|p: (String, String)| (p.0@, p.1@)),
            target == out@ + pair_lines(models.skip(i as int), indent@),
        decreases pairs@.len() - i,
    {
        proof {
            assert(models.skip(i as int).drop_first() =~= models.skip(i + 1 as int));
        }
        out.append(indent);
        out.append(pairs[i].0.as_str());
        out.append(": ");
        out.append(pairs[i].1.as_str());
        out.append("\n");
        proof {
            assert(target =~= out@ + pair_lines(models.skip(i + 1 as int), indent@));
        }
        i = i + 1;
    }
    proof {
        assert(pair_lines(models.skip(pairs@.len() as int), indent@) =~= Seq::<char>::empty());
        assert(target =~= out@);
    }
}

/// Renders a playbook as the automation tooling's YAML: document
/// header, play name and hosts, a vars block when variables exist,
/// then each task with its module, parameters and tags.
pub fn generate_playbook_yaml(playbook: &PlaybookInfo) -> (r: String)
    ensures
        r@ == playbook_yaml_spec(playbook@),
{
    let mut out = String::new();
    out.append("---\n");
    out.append("- name: ");
    out.append(playbook.name.as_str());
    out.append("\n");
    out.append("  hosts: ");
    append_joined(&mut out, &playbook.hosts, ",");
    out.append("\n");
    if playbook.variables.len() > 0 {
        out.append("  vars:\n");
        append_pair_lines(&mut out, &playbook.variables, "    ");
    }
    out.append("  tasks:\n");
    let ghost tasks_models = playbook.tasks@.map_values(|t: TaskInfo| t@);
    let ghost target = playbook_yaml_spec(playbook@);
    proof {
        assert(tasks_models.skip(0) =~= tasks_models);
        assert(target =~= out@ + task_lines(tasks_models));
    }
    let mut i: usize = 0;
    while i < playbook.tasks.len()
        invariant
            i <= playbook.tasks@.len(),
            tasks_models == playbook.tasks@.map_values(|t: TaskInfo| t@),
            target == out@ + task_lines(tasks_models.skip(i as int)),
        decreases playbook.tasks@.len() - i,
    {
        proof {
            assert(tasks_models.skip(i as int).drop_first() =~= tasks_models.skip(i + 1 as int));
            assert(tasks_models.skip(i as int).first() == tasks_models[i as int]);
        }
        let task = &playbook.tasks[i];
        out.append("    - name: ");
        out.append(task.name.as_str());
        out.append("\n");
        out.append("      ");
        out.append(task.module.as_str());
        out.append(": \n");
        append_pair_lines(&mut out, &task.parameters, "        ");
        if task.tags.len() > 0 {
            out.append("      tags: ");
            append_joined(&mut out, &task.tags, ", ");
            out.append("\n");
        }
        proof {
            assert(target =~= out@ + task_lines(tasks_models.skip(i + 1 as int)));
        }
        i = i + 1;
    }
    proof {
        assert(task_lines(tasks_models.skip(playbook.tasks@.len() as int)) =~= Seq::<
            char,
        >::empty());
        assert(target =~= out@);
    }
    out
}

/// Holds the configuration that playbook and ad-hoc runs depend on.
pub struct AnsibleManager {
    inventory_path: Option<String>,
    vault_password: Option<String>,
    ansible_config: Vec<(String, String)>,
}

impl View for AnsibleManager {
    type V = AnsibleConfigModel;

    closed spec fn view(&self) -> AnsibleConfigModel {
        AnsibleConfigModel {
            inventory_path: match self.inventory_path {
                Some(ref s) => Some(s@),
                None => None,
            },
            vault_password: match self.vault_password {
                Some(ref s) => Some(s@),
                None => None,
            },
            ansible_config: self.ansible_config@.map_values(|p: (String, String)| (p.0@, p.1@)),
        }
    }
}

impl AnsibleManager {
    /// A fresh manager: no inventory, no vault password, no extra
    /// configuration.
    pub fn new() -> (r: Self)
        ensures
            r@.inventory_path is None,
            r@.vault_password is None,
            r@.ansible_config =~= Seq::<(Seq<char>, Seq<char>)>::empty(),
    {
        AnsibleManager { inventory_path: None, vault_password: None, ansible_config: Vec::new() }
    }

    /// Records the inventory path later runs should use.
    pub fn set_inventory(&mut self, inventory_path: &str)
        ensures
            final(self)@ == (AnsibleConfigModel {
                inventory_path: Some(inventory_path@),
                ..old(self)@
            }),
    {
        self.inventory_path = Some(inventory_path.to_owned());
    }

    /// Records the vault password file later runs should use.
    pub fn set_vault_password(&mut self, password: &str)
        ensures
            final(self)@ == (AnsibleConfigModel {
                vault_password: Some(password@),
                ..old(self)@
            }),
    {
        self.vault_password = Some(password.to_owned());
    }

    /// The recorded inventory path, if any.
    pub fn inventory_path(&self) -> (r: Option<&String>)
        ensures
            match r {
                Some(s) => self@.inventory_path == Some(s@),
                None => self@.inventory_path is None,
            },
    {
        self.inventory_path.as_ref()
    }

    /// The recorded vault password file, if any.
    pub fn vault_password(&self) -> (r: Option<&String>)
        ensures
            match r {
                Some(s) => self@.vault_password == Some(s@),
                None => self@.vault_password is None,
            },
    {
        self.vault_password.as_ref()
    }

    /// The extra configuration pairs, in insertion order.
    pub fn config_pairs(&self) -> (r: &Vec<(String, String)>)
        ensures
            r@.map_values(|p: (String, String)| (p.0@, p.1@)) == self@.ansible_config,
    {
        &self.ansible_config
    }
}

} // verus!
