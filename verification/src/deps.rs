//! The Python dependencies: the requirements list, the decision to install,
//! the pip commands, and the fix to the embedded interpreter's path file.
use vstd::prelude::*;
use crate::json::{
    distinct_keys, field_keys, find_key, lemma_assoc_set_distinct,
    lemma_first_index_some, lemma_lookup_distinct, lemma_pairs_keys, lookup,
    pairs_view, string_keys, assoc_set,
};
use crate::text::{chars_of, join_lines, replace_all, replace_text};

verus! {

// ---------------------------------------------------------------------------
// Lines
// ---------------------------------------------------------------------------

/// The pieces of `s` between the line breaks `\n`; there is always one more
/// piece than there are breaks.
pub open spec fn split_lines(s: Seq<char>) -> Seq<Seq<char>>
    decreases s.len(),
{
    if s.len() == 0 {
        seq![Seq::empty()]
    } else {
        let prev = split_lines(s.drop_last());
        if s.last() == '\n' {
            prev.push(Seq::empty())
        } else {
            prev.update(prev.len() - 1, prev.last().push(s.last()))
        }
    }
}

pub proof fn lemma_split_lines_nonempty(s: Seq<char>)
    ensures
        split_lines(s).len() >= 1,
    decreases s.len(),
{
    if s.len() > 0 {
        lemma_split_lines_nonempty(s.drop_last());
    }
}

/// The text of each line range.
pub open spec fn ranges_text(cs: Seq<char>, ranges: Seq<(usize, usize)>) -> Seq<Seq<char>> {
    ranges.map_values(|r: (usize, usize)| cs.subrange(r.0 as int, r.1 as int))
}

/// The ranges of the lines of `cs`.
fn line_ranges(cs: &Vec<char>) -> (res: Vec<(usize, usize)>)
    ensures
        ranges_text(cs@, res@) == split_lines(cs@),
        forall|k: int| #![trigger res@[k]] 0 <= k < res@.len() ==> res@[k].0 <= res@[k].1 <= cs@.len(),
{
    let n = cs.len();
    let mut res: Vec<(usize, usize)> = Vec::new();
    let mut start: usize = 0;
    let mut i: usize = 0;
    assert(cs@.take(0) =~= Seq::<char>::empty());
    assert(ranges_text(cs@, res@).push(cs@.subrange(0, 0)) =~= split_lines(cs@.take(0)));
    while i < n
        invariant
            start <= i <= n,
            n == cs@.len(),
            forall|k: int| #![trigger res@[k]] 0 <= k < res@.len() ==> res@[k].0 <= res@[k].1 <= i,
            ranges_text(cs@, res@).push(cs@.subrange(start as int, i as int)) == split_lines(
                cs@.take(i as int),
            ),
        decreases n - i,
    {
        let ghost prev = split_lines(cs@.take(i as int));
        assert(cs@.take(i + 1).drop_last() =~= cs@.take(i as int));
        assert(cs@.take(i + 1).last() == cs@[i as int]);
        if cs[i] == '\n' {
            let ghost old_res = res@;
            res.push((start, i));
            assert(ranges_text(cs@, res@) =~= ranges_text(cs@, old_res).push(
                cs@.subrange(start as int, i as int),
            ));
            start = i + 1;
            assert(cs@.subrange(start as int, (i + 1) as int) =~= Seq::<char>::empty());
            assert(ranges_text(cs@, res@) == prev);
            assert(ranges_text(cs@, res@).push(cs@.subrange(start as int, (i + 1) as int))
                =~= prev.push(Seq::empty()));
        } else {
            assert(cs@.subrange(start as int, i + 1) =~= cs@.subrange(start as int, i as int).push(
                cs@[i as int],
            ));
            assert(ranges_text(cs@, res@).push(cs@.subrange(start as int, (i + 1) as int))
                =~= prev.update(prev.len() - 1, prev.last().push(cs@[i as int])));
        }
        i = i + 1;
    }
    res.push((start, n));
    assert(cs@.take(n as int) =~= cs@);
    assert(ranges_text(cs@, res@) =~= split_lines(cs@));
    res
}

// ---------------------------------------------------------------------------
// Requirements
// ---------------------------------------------------------------------------

/// `==` stands at position `i` of `l`.
pub open spec fn eqeq_at(l: Seq<char>, i: int) -> bool {
    0 <= i && i + 1 < l.len() && l[i] == '=' && l[i + 1] == '='
}

pub open spec fn is_first_eqeq(l: Seq<char>, i: int) -> bool {
    eqeq_at(l, i) && forall|j: int| 0 <= j < i ==> !eqeq_at(l, j)
}

/// The position of the first `==` in `l`.
pub open spec fn first_eqeq(l: Seq<char>) -> Option<int> {
    if exists|i: int| is_first_eqeq(l, i) {
        Some(choose|i: int| is_first_eqeq(l, i))
    } else {
        None
    }
}

/// A requirement line `name==version`: the name is what comes before the
/// first `==`, the version what comes after it up to the next `==`.
pub open spec fn requirement_line(l: Seq<char>) -> (Seq<char>, Seq<char>) {
    let i = first_eqeq(l)->0;
    let rest = l.skip(i + 2);
    let j = match first_eqeq(rest) {
        Some(j) => j,
        None => rest.len() as int,
    };
    (l.take(i), rest.take(j))
}

/// Every line that is not empty holds `==`.
pub open spec fn requirements_ok(text: Seq<char>) -> bool {
    forall|k: int|
        0 <= k < split_lines(text).len() ==> (#[trigger] split_lines(text)[k]).len() == 0
            || first_eqeq(split_lines(text)[k]) is Some
}

/// The requirements of the lines, a later line for a package replacing an
/// earlier one.
pub open spec fn collect_requirements(lines: Seq<Seq<char>>) -> Seq<(Seq<char>, Seq<char>)>
    decreases lines.len(),
{
    if lines.len() == 0 {
        Seq::empty()
    } else {
        let prev = collect_requirements(lines.drop_last());
        let l = lines.last();
        if l.len() == 0 {
            prev
        } else {
            assoc_set(prev, requirement_line(l).0, requirement_line(l).1)
        }
    }
}

/// The requirements that a requirements text lists: package and version.
pub open spec fn requirements_spec(text: Seq<char>) -> Seq<(Seq<char>, Seq<char>)> {
    collect_requirements(split_lines(text))
}

proof fn lemma_first_eqeq_unique(l: Seq<char>, i: int)
    requires
        is_first_eqeq(l, i),
    ensures
        first_eqeq(l) == Some(i),
{
    let c = choose|c: int| is_first_eqeq(l, c);
    assert(is_first_eqeq(l, c));
    if c < i {
        assert(!eqeq_at(l, c));
    } else if c > i {
        assert(!eqeq_at(l, i));
    }
}

/// The first `==` in `cs[from..to]`.
fn find_eqeq(cs: &Vec<char>, from: usize, to: usize) -> (r: Option<usize>)
    requires
        from <= to <= cs@.len(),
    ensures
        r matches Some(p) ==> from <= p && p + 2 <= to && first_eqeq(cs@.subrange(
            from as int,
            to as int,
        )) == Some(p - from),
        r is None ==> first_eqeq(cs@.subrange(from as int, to as int)) is None,
{
    let ghost l = cs@.subrange(from as int, to as int);
    let mut i: usize = from;
    while to - i > 1
        invariant
            from <= i <= to,
            to <= cs@.len(),
            l == cs@.subrange(from as int, to as int),
            forall|j: int| 0 <= j < i - from ==> !eqeq_at(l, j),
        decreases to - i,
    {
        if cs[i] == '=' && cs[i + 1] == '=' {
            assert(eqeq_at(l, i - from));
            proof {
                lemma_first_eqeq_unique(l, i - from);
            }
            return Some(i);
        }
        assert(!eqeq_at(l, i - from));
        i = i + 1;
    }
    assert forall|j: int| 0 <= j < l.len() implies !eqeq_at(l, j) by {
        if j >= i - from {
            assert(j + 1 >= l.len());
        }
    }
    None
}

/// Whether every line of a requirements text that is not empty holds `==`.
pub fn requirements_well_formed(text: &str) -> (res: bool)
    ensures
        res == requirements_ok(text@),
{
    let cs = chars_of(text);
    let ranges = line_ranges(&cs);
    let ghost lines = split_lines(text@);
    let mut k: usize = 0;
    while k < ranges.len()
        invariant
            k <= ranges.len(),
            cs@ == text@,
            ranges_text(cs@, ranges@) == lines,
            lines == split_lines(text@),
            forall|m: int| #![trigger ranges@[m]] 0 <= m < ranges@.len() ==> ranges@[m].0 <= ranges@[m].1 <= cs@.len(),
            forall|m: int|
                0 <= m < k ==> (#[trigger] lines[m]).len() == 0 || first_eqeq(lines[m]) is Some,
        decreases ranges.len() - k,
    {
        let (a, b) = ranges[k];
        assert(lines[k as int] == cs@.subrange(a as int, b as int));
        if a < b {
            if find_eqeq(&cs, a, b).is_none() {
                return false;
            }
        }
        k = k + 1;
    }
    true
}

/// Maps `key` to `value` in a list of text pairs.
fn set_pair(pairs: &mut Vec<(String, String)>, key: String, value: String)
    ensures
        pairs_view(final(pairs)@) == assoc_set(pairs_view(old(pairs)@), key@, value@),
{
    proof {
        lemma_pairs_keys(pairs@);
    }
    match find_key(pairs, &key) {
        Some(i) => {
            proof {
                lemma_first_index_some(string_keys(pairs@), key@);
            }
            let ghost kv = key@;
            let ghost vv = value@;
            pairs.set(i, (key, value));
            assert(pairs_view(pairs@) =~= pairs_view(old(pairs)@).update(i as int, (kv, vv)));
        },
        None => {
            let ghost kv = key@;
            let ghost vv = value@;
            pairs.push((key, value));
            assert(pairs_view(pairs@) =~= pairs_view(old(pairs)@).push((kv, vv)));
        },
    }
}

/// The requirements that a requirements text lists, one per line that is not
/// empty, as package and version; a later line for a package replaces an
/// earlier one.
pub fn parse_requirements(text: &str) -> (res: Vec<(String, String)>)
    requires
        requirements_ok(text@),
    ensures
        pairs_view(res@) == requirements_spec(text@),
        distinct_keys(string_keys(res@)),
{
    let cs = chars_of(text);
    let ranges = line_ranges(&cs);
    let ghost lines = split_lines(text@);
    let mut res: Vec<(String, String)> = Vec::new();
    let mut k: usize = 0;
    assert(lines.take(0) =~= Seq::<Seq<char>>::empty());
    proof {
        lemma_pairs_keys(res@);
    }
    while k < ranges.len()
        invariant
            k <= ranges.len(),
            cs@ == text@,
            ranges_text(cs@, ranges@) == lines,
            lines == split_lines(text@),
            requirements_ok(text@),
            forall|m: int| #![trigger ranges@[m]] 0 <= m < ranges@.len() ==> ranges@[m].0 <= ranges@[m].1 <= cs@.len(),
            pairs_view(res@) == collect_requirements(lines.take(k as int)),
            distinct_keys(field_keys(pairs_view(res@))),
        decreases ranges.len() - k,
    {
        let (a, b) = ranges[k];
        let ghost l = cs@.subrange(a as int, b as int);
        assert(lines[k as int] == l);
        assert(lines.take(k + 1).drop_last() =~= lines.take(k as int));
        assert(lines.take(k + 1).last() == l);
        if a < b {
            assert(l.len() > 0);
            assert(first_eqeq(l) is Some);
            match find_eqeq(&cs, a, b) {
                Some(p) => {
                    let q = match find_eqeq(&cs, p + 2, b) {
                        Some(q) => q,
                        None => b,
                    };
                    let name = String::from_str(text.substring_char(a, p));
                    let version = String::from_str(text.substring_char(p + 2, q));
                    proof {
                        let i = (p - a) as int;
                        let rest = l.skip(i + 2);
                        assert(rest =~= cs@.subrange(p + 2, b as int));
                        assert(name@ =~= l.take(i));
                        assert(version@ =~= rest.take(q - (p + 2)));
                        lemma_assoc_set_distinct(pairs_view(res@), name@, version@);
                    }
                    set_pair(&mut res, name, version);
                },
                None => {},
            }
        }
        k = k + 1;
    }
    assert(lines.take(ranges.len() as int) =~= lines);
    proof {
        lemma_pairs_keys(res@);
    }
    res
}

/// Lines are the text cut at each `\n`: no line holds a break, and the lines
/// joined by `\n` give back the text.
pub proof fn law_split_lines(s: Seq<char>)
    ensures
        join_lines(split_lines(s), seq!['\n']) == s,
        forall|k: int, m: int|
            0 <= k < split_lines(s).len() && 0 <= m < split_lines(s)[k].len() ==> #[trigger] split_lines(
                s,
            )[k][m] != '\n',
    decreases s.len(),
{
    if s.len() > 0 {
        let d = s.drop_last();
        law_split_lines(d);
        lemma_split_lines_nonempty(d);
        let prev = split_lines(d);
        let c = s.last();
        assert(d + seq![c] =~= s);
        if c == '\n' {
            assert(prev.push(Seq::empty()).drop_last() =~= prev);
            assert(join_lines(prev, seq!['\n']) + seq!['\n'] + Seq::<char>::empty() =~= s);
        } else {
            lemma_join_extend_last(prev, seq!['\n'], c);
            let lines = prev.update(prev.len() - 1, prev.last().push(c));
            assert forall|k: int, m: int|
                0 <= k < lines.len() && 0 <= m < lines[k].len() implies #[trigger] lines[k][m]
                != '\n' by {
                if k == prev.len() - 1 && m == prev.last().len() {
                } else {
                    assert(lines[k][m] == prev[k][m]);
                }
            }
        }
    }
}

/// Adding a character to the last line adds it at the end of the joined text.
proof fn lemma_join_extend_last(lines: Seq<Seq<char>>, sep: Seq<char>, c: char)
    requires
        lines.len() >= 1,
    ensures
        join_lines(lines.update(lines.len() - 1, lines.last().push(c)), sep) == join_lines(
            lines,
            sep,
        ).push(c),
{
    let longer = lines.update(lines.len() - 1, lines.last().push(c));
    if lines.len() == 1 {
    } else {
        assert(longer.drop_last() =~= lines.drop_last());
        assert(join_lines(lines.drop_last(), sep) + sep + lines.last().push(c) =~= (join_lines(
            lines.drop_last(),
            sep,
        ) + sep + lines.last()).push(c));
    }
}

/// A line added after a break is one more line.
proof fn lemma_split_append_line(t: Seq<char>, l: Seq<char>)
    requires
        forall|m: int| 0 <= m < l.len() ==> l[m] != '\n',
    ensures
        split_lines(t + seq!['\n'] + l) == split_lines(t).push(l),
    decreases l.len(),
{
    let s = t + seq!['\n'] + l;
    if l.len() == 0 {
        assert(s.drop_last() =~= t);
        assert(s.last() == '\n');
        assert(split_lines(s) == split_lines(s.drop_last()).push(Seq::empty()));
        assert(l =~= Seq::<char>::empty());
    } else {
        let init = l.drop_last();
        assert forall|m: int| 0 <= m < init.len() implies init[m] != '\n' by {
            assert(init[m] == l[m]);
        }
        lemma_split_append_line(t, init);
        assert(s.drop_last() =~= t + seq!['\n'] + init);
        assert(s.last() == l.last());
        assert(l.last() != '\n');
        let prev = split_lines(t).push(init);
        assert(prev.last() == init);
        assert(init.push(l.last()) =~= l);
        assert(prev.update(prev.len() - 1, prev.last().push(l.last())) =~= split_lines(t).push(l));
        assert(split_lines(s) == prev.update(prev.len() - 1, prev.last().push(l.last())));
    }
}

/// `name==version` reads as that name and version, where the name holds no
/// `==` and does not end with `=`, and the version holds no `==`.
pub proof fn law_requirement_line(name: Seq<char>, version: Seq<char>)
    requires
        forall|i: int| !eqeq_at(name, i),
        forall|i: int| !eqeq_at(version, i),
        name.len() > 0 ==> name.last() != '=',
    ensures
        requirement_line(name + seq!['=', '='] + version) == (name, version),
{
    let l = name + seq!['=', '='] + version;
    let n = name.len() as int;
    assert(eqeq_at(l, n));
    assert forall|j: int| 0 <= j < n implies !eqeq_at(l, j) by {
        if j + 1 < n {
            assert(!eqeq_at(name, j));
        }
    }
    lemma_first_eqeq_unique(l, n);
    assert(l.skip(n + 2) =~= version);
    if first_eqeq(version) is Some {
        let k = choose|k: int| is_first_eqeq(version, k);
        assert(is_first_eqeq(version, k));
    }
    assert(l.take(n) =~= name);
    assert(version.take(version.len() as int) =~= version);
}

/// A line `name==version` added at the end of a requirements text sets the
/// package `name` to `version`, and leaves every other package as it was.
pub proof fn law_last_requirement_line_wins(
    text: Seq<char>,
    name: Seq<char>,
    version: Seq<char>,
    other: Seq<char>,
)
    requires
        forall|i: int| !eqeq_at(name, i),
        forall|i: int| !eqeq_at(version, i),
        name.len() > 0 ==> name.last() != '=',
        forall|m: int| 0 <= m < name.len() ==> name[m] != '\n',
        forall|m: int| 0 <= m < version.len() ==> version[m] != '\n',
    ensures
        lookup(requirements_spec(text + seq!['\n'] + (name + seq!['=', '='] + version)), name)
            == Some(version),
        other != name ==> lookup(
            requirements_spec(text + seq!['\n'] + (name + seq!['=', '='] + version)),
            other,
        ) == lookup(requirements_spec(text), other),
{
    let l = name + seq!['=', '='] + version;
    assert forall|m: int| 0 <= m < l.len() implies l[m] != '\n' by {
        if m < name.len() {
            assert(l[m] == name[m]);
        } else if m >= name.len() + 2 {
            assert(l[m] == version[m - name.len() - 2]);
        }
    }
    lemma_split_append_line(text, l);
    law_requirement_line(name, version);
    let lines = split_lines(text).push(l);
    assert(lines.drop_last() =~= split_lines(text));
    assert(l.len() > 0);
    crate::json::lemma_assoc_set(collect_requirements(split_lines(text)), name, version, other);
}

// ---------------------------------------------------------------------------
// Whether to install
// ---------------------------------------------------------------------------

/// Some requirement is not installed at the version it asks for.
pub open spec fn outdated(
    requirements: Seq<(Seq<char>, Seq<char>)>,
    installed: Seq<(Seq<char>, Seq<char>)>,
) -> bool {
    exists|i: int|
        0 <= i < requirements.len() && lookup(installed, #[trigger] requirements[i].0) != Some(
            requirements[i].1,
        )
}

/// Whether the dependencies must be installed: some requirement is missing
/// from what is installed, or installed at another version.
pub fn needs_install(requirements: &Vec<(String, String)>, installed: &Vec<(String, String)>) -> (res:
    bool)
    ensures
        res == outdated(pairs_view(requirements@), pairs_view(installed@)),
{
    let ghost reqs = pairs_view(requirements@);
    let ghost inst = pairs_view(installed@);
    proof {
        lemma_pairs_keys(installed@);
    }
    let mut i: usize = 0;
    while i < requirements.len()
        invariant
            i <= requirements.len(),
            reqs == pairs_view(requirements@),
            inst == pairs_view(installed@),
            field_keys(inst) == string_keys(installed@),
            forall|j: int| 0 <= j < i ==> lookup(inst, #[trigger] reqs[j].0) == Some(reqs[j].1),
        decreases requirements.len() - i,
    {
        assert(reqs[i as int] == (requirements@[i as int].0@, requirements@[i as int].1@));
        match find_key(installed, &requirements[i].0) {
            Some(k) => {
                if installed[k].1 != requirements[i].1 {
                    assert(lookup(inst, reqs[i as int].0) != Some(reqs[i as int].1));
                    return true;
                }
            },
            None => {
                assert(lookup(inst, reqs[i as int].0) != Some(reqs[i as int].1));
                return true;
            },
        }
        i = i + 1;
    }
    false
}

/// The dependencies are installed exactly when some requirement, whichever its
/// position, is missing from what is installed or installed at another
/// version: any such requirement makes the decision true, and a false decision
/// means every requirement is installed at its version.
pub proof fn law_install_decision(
    requirements: Seq<(Seq<char>, Seq<char>)>,
    installed: Seq<(Seq<char>, Seq<char>)>,
    i: int,
)
    ensures
        0 <= i < requirements.len() && lookup(installed, requirements[i].0) != Some(
            requirements[i].1,
        ) ==> outdated(requirements, installed),
        !outdated(requirements, installed) ==> forall|j: int|
            0 <= j < requirements.len() ==> lookup(installed, #[trigger] requirements[j].0)
                == Some(requirements[j].1),
        outdated(requirements, installed) ==> exists|j: int|
            0 <= j < requirements.len() && lookup(installed, #[trigger] requirements[j].0)
                != Some(requirements[j].1),
{
    if 0 <= i < requirements.len() && lookup(installed, requirements[i].0) != Some(
        requirements[i].1,
    ) {
        assert(lookup(installed, requirements[i].0) != Some(requirements[i].1));
    }
}

/// Installed requirements are not installed again: where what is installed is
/// exactly what the requirements list, nothing is outdated.
pub proof fn law_installed_requirements_are_current(requirements: Seq<(Seq<char>, Seq<char>)>)
    requires
        distinct_keys(field_keys(requirements)),
    ensures
        !outdated(requirements, requirements),
{
    assert forall|i: int| 0 <= i < requirements.len() implies lookup(
        requirements,
        #[trigger] requirements[i].0,
    ) == Some(requirements[i].1) by {
        lemma_lookup_distinct(requirements, i);
    }
}

// ---------------------------------------------------------------------------
// The record of installed packages
// ---------------------------------------------------------------------------

/// What serde_json reads a text as, where it reads it as a JSON object whose
/// members are all strings: the map from member names to values.
pub uninterp spec fn json_string_map(text: Seq<char>) -> Option<Map<Seq<char>, Seq<char>>>;

/// The map that an association list stands for.
pub open spec fn pairs_map(pairs: Seq<(Seq<char>, Seq<char>)>) -> Map<Seq<char>, Seq<char>> {
    Map::new(|k: Seq<char>| lookup(pairs, k) is Some, |k: Seq<char>| lookup(pairs, k)->0)
}

/// Reads `text` with `serde_json::from_str` as a `HashMap<String, String>`,
/// and hands out its entries. Claimed: the entries are what the name
/// `json_string_map` gives for the text, each key once; nothing where the
/// text does not read as such an object. The order of the entries is the
/// map's and is left unsaid.
#[verifier::external_body]
fn read_string_map(text: &str) -> (res: Option<Vec<(String, String)>>)
    ensures
        match res {
            Some(v) => json_string_map(text@) == Some(pairs_map(pairs_view(v@))) && distinct_keys(
                string_keys(v@),
            ),
            None => json_string_map(text@) is None,
        },
{
    serde_json::from_str::<std::collections::HashMap<String, String>>(text).ok().map(
        |m| m.into_iter().collect(),
    )
}

/// Writes the entries, whose keys are distinct, with `serde_json::to_string`
/// of a `HashMap<String, String>`. Claimed: the text reads back, as
/// `json_string_map`, to the map of the entries. The order of the members in
/// the text is the map's and is left unsaid.
#[verifier::external_body]
fn write_string_map(pairs: &Vec<(String, String)>) -> (res: String)
    requires
        distinct_keys(string_keys(pairs@)),
    ensures
        json_string_map(res@) == Some(pairs_map(pairs_view(pairs@))),
{
    let map: std::collections::HashMap<String, String> = pairs.iter().cloned().collect();
    serde_json::to_string(&map).unwrap()
}

/// The packages that the record says are installed, each once; none where
/// the record does not read as a JSON object of strings.
pub fn installed_packages(record: &str) -> (res: Vec<(String, String)>)
    ensures
        distinct_keys(string_keys(res@)),
        match json_string_map(record@) {
            Some(m) => pairs_map(pairs_view(res@)) == m,
            None => res@.len() == 0,
        },
{
    match read_string_map(record) {
        Some(v) => v,
        None => Vec::new(),
    }
}

/// The record of the installed packages, written once the requirements are
/// installed: it reads back as the map of the requirements.
pub fn installed_record(requirements: &Vec<(String, String)>) -> (res: String)
    requires
        distinct_keys(string_keys(requirements@)),
    ensures
        json_string_map(res@) == Some(pairs_map(pairs_view(requirements@))),
{
    write_string_map(requirements)
}

/// Whether some requirement is outdated depends on what is installed only
/// through the map it stands for.
proof fn lemma_outdated_by_map(
    requirements: Seq<(Seq<char>, Seq<char>)>,
    a: Seq<(Seq<char>, Seq<char>)>,
    b: Seq<(Seq<char>, Seq<char>)>,
)
    requires
        pairs_map(a) == pairs_map(b),
    ensures
        outdated(requirements, a) == outdated(requirements, b),
{
    assert forall|k: Seq<char>| #[trigger] lookup(a, k) == lookup(b, k) by {
        let ma = pairs_map(a);
        let mb = pairs_map(b);
        assert(ma.dom().contains(k) == (lookup(a, k) is Some));
        assert(mb.dom().contains(k) == (lookup(b, k) is Some));
        if lookup(a, k) is Some {
            assert(ma[k] == lookup(a, k)->0);
            assert(mb[k] == lookup(b, k)->0);
        }
    }
    if outdated(requirements, a) {
        let i = choose|i: int|
            0 <= i < requirements.len() && lookup(a, #[trigger] requirements[i].0) != Some(
                requirements[i].1,
            );
        assert(lookup(b, requirements[i].0) == lookup(a, requirements[i].0));
    }
    if outdated(requirements, b) {
        let i = choose|i: int|
            0 <= i < requirements.len() && lookup(b, #[trigger] requirements[i].0) != Some(
                requirements[i].1,
            );
        assert(lookup(b, requirements[i].0) == lookup(a, requirements[i].0));
    }
}

/// Installed requirements are not installed again: once the record of the
/// requirements is written, the packages read back from it leave no
/// requirement outdated.
pub proof fn law_recorded_requirements_are_current(
    requirements: Seq<(Seq<char>, Seq<char>)>,
    record: Seq<char>,
    installed: Seq<(Seq<char>, Seq<char>)>,
)
    requires
        distinct_keys(field_keys(requirements)),
        json_string_map(record) == Some(pairs_map(requirements)),
        pairs_map(installed) == json_string_map(record)->0,
    ensures
        !outdated(requirements, installed),
{
    law_installed_requirements_are_current(requirements);
    lemma_outdated_by_map(requirements, requirements, installed);
}

// ---------------------------------------------------------------------------
// Commands and files
// ---------------------------------------------------------------------------

pub open spec fn strings_view(v: Seq<String>) -> Seq<Seq<char>> {
    v.map_values(|s: String| s@)
}

/// The interpreter to run: the embedded one on Windows, `python3` elsewhere.
pub fn python_executable(windows: bool, embedded: &String) -> (res: String)
    ensures
        res@ == if windows {
            embedded@
        } else {
            "python3"@
        },
{
    if windows {
        embedded.clone()
    } else {
        String::from_str("python3")
    }
}

/// The arguments that bootstrap pip from the downloaded `get-pip.py`.
pub fn pip_bootstrap_args(get_pip: &String) -> (res: Vec<String>)
    ensures
        strings_view(res@) == seq![get_pip@, "--user"@, "--break-system-packages"@],
{
    let mut res: Vec<String> = Vec::new();
    res.push(get_pip.clone());
    res.push(String::from_str("--user"));
    res.push(String::from_str("--break-system-packages"));
    assert(strings_view(res@) =~= seq![get_pip@, "--user"@, "--break-system-packages"@]);
    res
}

/// The arguments that install the requirements at `requirements_url` with pip.
pub fn pip_install_args(requirements_url: &String) -> (res: Vec<String>)
    ensures
        strings_view(res@) == seq![
            "-m"@,
            "pip"@,
            "install"@,
            "-r"@,
            requirements_url@,
            "--user"@,
            "--break-system-packages"@,
        ],
{
    let mut res: Vec<String> = Vec::new();
    res.push(String::from_str("-m"));
    res.push(String::from_str("pip"));
    res.push(String::from_str("install"));
    res.push(String::from_str("-r"));
    res.push(requirements_url.clone());
    res.push(String::from_str("--user"));
    res.push(String::from_str("--break-system-packages"));
    assert(strings_view(res@) =~= seq![
        "-m"@,
        "pip"@,
        "install"@,
        "-r"@,
        requirements_url@,
        "--user"@,
        "--break-system-packages"@,
    ]);
    res
}

/// The path file of the embedded interpreter with `site` imported: every
/// `#import site` becomes `import site`.
pub fn enable_site_import(content: &str) -> (res: String)
    ensures
        res@ == replace_all(content@, "#import site"@, "import site"@),
{
    proof {
        reveal_strlit("#import site");
    }
    replace_text(content, "#import site", "import site")
}

} // verus!
