//! Figures drawn from a trace result: the items of each artifact type, the
//! number of defects of each kind, and what those numbers say in words.

use crate::model::{
    Defect, DefectType, DefectView, LinkedItemView, LinkedSpecificationItem,
};
use crate::text::{
    copy_range, decimal_digits, find_chars, find_spec, is_text_less, lemma_split_on_nonempty,
    split_chars, split_on, string_of, text_less, to_chars, trim_chars, trim_spec, u64_to_chars,
};
use crate::tracer::{lemma_types_seen_distinct, types_seen, TraceResult};
use vstd::prelude::*;
use vstd::string::StringExecFns;

verus! {

/// The items of `linked` that have the artifact type `t`, in order.
pub open spec fn items_of_type(linked: Seq<LinkedItemView>, t: Seq<char>) -> Seq<LinkedItemView>
    decreases linked.len(),
{
    if linked.len() == 0 {
        Seq::empty()
    } else {
        let before = items_of_type(linked.drop_last(), t);
        if linked.last().item.id.artifact_type == t {
            before.push(linked.last())
        } else {
            before
        }
    }
}

/// The items grouped by artifact type: the types in order of first
/// appearance, each with its items in order.
pub open spec fn items_by_type_spec(linked: Seq<LinkedItemView>) -> Seq<
    (Seq<char>, Seq<LinkedItemView>),
> {
    Seq::new(
        types_seen(linked).len(),
        |e: int| (types_seen(linked)[e], items_of_type(linked, types_seen(linked)[e])),
    )
}

/// A type that no item has has no items.
proof fn lemma_no_items_of_type(linked: Seq<LinkedItemView>, t: Seq<char>)
    requires
        forall|i: int| 0 <= i < linked.len() ==> (#[trigger] linked[i]).item.id.artifact_type != t,
    ensures
        items_of_type(linked, t) == Seq::<LinkedItemView>::empty(),
    decreases linked.len(),
{
    if linked.len() > 0 {
        let front = linked.drop_last();
        assert forall|i: int| 0 <= i < front.len() implies (#[trigger] front[i]).item.id.artifact_type
            != t by {
            assert(front[i] == linked[i]);
        }
        lemma_no_items_of_type(front, t);
        assert(linked.last() == linked[linked.len() - 1]);
    }
}

/// The kinds of the defects, each once, in order of first appearance.
pub open spec fn kinds_seen(defects: Seq<DefectView>) -> Seq<DefectType>
    decreases defects.len(),
{
    if defects.len() == 0 {
        Seq::empty()
    } else {
        let before = kinds_seen(defects.drop_last());
        if before.contains(defects.last().defect_type) {
            before
        } else {
            before.push(defects.last().defect_type)
        }
    }
}

/// The number of defects of the kind `kind`.
pub open spec fn count_of_kind(defects: Seq<DefectView>, kind: DefectType) -> nat
    decreases defects.len(),
{
    if defects.len() == 0 {
        0
    } else {
        count_of_kind(defects.drop_last(), kind) + if defects.last().defect_type == kind {
            1nat
        } else {
            0nat
        }
    }
}

/// The number of defects of each kind that occurs, the kinds in order of
/// first appearance.
pub open spec fn defect_statistics_spec(defects: Seq<DefectView>) -> Seq<(DefectType, usize)> {
    Seq::new(
        kinds_seen(defects).len(),
        |e: int| (kinds_seen(defects)[e], count_of_kind(defects, kinds_seen(defects)[e]) as usize),
    )
}

/// No kind is listed twice; every kind that occurs is listed; a count
/// never exceeds the number of defects.
pub proof fn lemma_kinds_seen(defects: Seq<DefectView>)
    ensures
        kinds_seen(defects).no_duplicates(),
        forall|i: int|
            0 <= i < defects.len() ==> kinds_seen(defects).contains(
                (#[trigger] defects[i]).defect_type,
            ),
    decreases defects.len(),
{
    if defects.len() > 0 {
        let front = defects.drop_last();
        lemma_kinds_seen(front);
        let before = kinds_seen(front);
        let kind = defects.last().defect_type;
        let now = kinds_seen(defects);
        if !before.contains(kind) {
            assert(now[before.len() as int] == kind);
        }
        assert forall|i: int| 0 <= i < defects.len() implies now.contains(
            (#[trigger] defects[i]).defect_type,
        ) by {
            if i < front.len() {
                assert(front[i] == defects[i]);
                let w = choose|w: int| 0 <= w < before.len() && before[w] == defects[i].defect_type;
                assert(now[w] == before[w]);
            }
        }
    }
}

/// A kind is counted at most as often as there are defects, and never
/// where it is not listed.
pub proof fn lemma_count_of_kind(defects: Seq<DefectView>, kind: DefectType)
    ensures
        count_of_kind(defects, kind) <= defects.len(),
        !kinds_seen(defects).contains(kind) ==> count_of_kind(defects, kind) == 0,
    decreases defects.len(),
{
    if defects.len() > 0 {
        let front = defects.drop_last();
        lemma_count_of_kind(front, kind);
        lemma_kinds_seen(defects);
        let before = kinds_seen(front);
        let now = kinds_seen(defects);
        if !now.contains(kind) {
            assert(defects.last() == defects[defects.len() - 1]);
            assert(now.contains(defects.last().defect_type));
            if before.contains(kind) {
                let w = choose|w: int| 0 <= w < before.len() && before[w] == kind;
                assert(now[w] == kind);
            }
        }
    }
}

/// The position of the group of the artifact type `t`.
fn find_group(groups: &Vec<(String, Vec<LinkedSpecificationItem>)>, t: &String) -> (r: Option<
    usize,
>)
    ensures
        match r {
            Some(e) => e < groups.len() && groups[e as int].0@ == t@,
            None => forall|m: int| 0 <= m < groups.len() ==> (#[trigger] groups[m]).0@ != t@,
        },
{
    let mut e: usize = 0;
    while e < groups.len()
        invariant
            e <= groups.len(),
            forall|m: int| 0 <= m < e ==> (#[trigger] groups[m]).0@ != t@,
        decreases groups.len() - e,
    {
        if groups[e].0 == *t {
            return Some(e);
        }
        e += 1;
    }
    None
}

/// The position of the entry of the kind `kind`.
fn find_kind(entries: &Vec<(DefectType, usize)>, kind: DefectType) -> (r: Option<usize>)
    ensures
        match r {
            Some(e) => e < entries.len() && entries[e as int].0 == kind,
            None => forall|m: int| 0 <= m < entries.len() ==> (#[trigger] entries[m]).0 != kind,
        },
{
    let mut e: usize = 0;
    while e < entries.len()
        invariant
            e <= entries.len(),
            forall|m: int| 0 <= m < e ==> (#[trigger] entries[m]).0 != kind,
        decreases entries.len() - e,
    {
        if entries[e].0 == kind {
            return Some(e);
        }
        e += 1;
    }
    None
}

impl TraceResult {
    /// The items grouped by artifact type.
    pub fn items_by_artifact_type(&self) -> (groups: Vec<(String, Vec<LinkedSpecificationItem>)>)
        ensures
            groups.deep_view() == items_by_type_spec(self@.items),
    {
        let ghost linked = self@.items;
        let mut groups: Vec<(String, Vec<LinkedSpecificationItem>)> = Vec::new();
        let mut i: usize = 0;
        assert(linked.take(0) =~= Seq::<LinkedItemView>::empty());
        while i < self.items.len()
            invariant
                i <= self.items.len(),
                linked == self@.items,
                groups.len() == types_seen(linked.take(i as int)).len(),
                forall|e: int|
                    0 <= e < groups.len() ==> (#[trigger] groups[e]).0@ == types_seen(
                        linked.take(i as int),
                    )[e] && groups[e].1.deep_view() == items_of_type(
                        linked.take(i as int),
                        groups[e].0@,
                    ),
            decreases self.items.len() - i,
        {
            let ghost prefix = linked.take(i as int);
            let ghost next = linked.take(i + 1);
            let item = &self.items[i];
            assert(linked[i as int] == item@);
            assert(next.drop_last() =~= prefix);
            assert(next.last() == item@);
            let ghost t = item@.item.id.artifact_type;
            let ghost keys = types_seen(prefix);
            proof {
                lemma_types_seen_distinct(prefix);
            }
            match find_group(&groups, &item.item.id.artifact_type) {
                Some(e) => {
                    assert(keys.contains(t)) by {
                        assert(keys[e as int] == t);
                    }
                    let ghost before = groups[e as int].1.deep_view();
                    groups[e].1.push(item.clone());
                    assert(groups[e as int].1.deep_view() =~~= before.push(item@));
                    assert forall|m: int| 0 <= m < groups.len() implies (#[trigger] groups[m]).0@
                        == types_seen(next)[m] && groups[m].1.deep_view() == items_of_type(
                        next,
                        groups[m].0@,
                    ) by {
                        if m != e {
                            assert(keys[m] != keys[e as int]);
                        }
                    }
                },
                None => {
                    assert(!keys.contains(t)) by {
                        if keys.contains(t) {
                            let w = choose|w: int| 0 <= w < keys.len() && keys[w] == t;
                            assert(groups[w].0@ == t);
                        }
                    }
                    proof {
                        assert forall|k: int| 0 <= k < prefix.len() implies (
                        #[trigger] prefix[k]).item.id.artifact_type != t by {
                            assert(keys.contains(prefix[k].item.id.artifact_type));
                        }
                        lemma_no_items_of_type(prefix, t);
                    }
                    let mut members: Vec<LinkedSpecificationItem> = Vec::new();
                    members.push(item.clone());
                    assert(members.deep_view() =~~= Seq::<LinkedItemView>::empty().push(item@));
                    groups.push((item.item.id.artifact_type.clone(), members));
                    assert forall|m: int| 0 <= m < groups.len() implies (#[trigger] groups[m]).0@
                        == types_seen(next)[m] && groups[m].1.deep_view() == items_of_type(
                        next,
                        groups[m].0@,
                    ) by {
                        if m < keys.len() {
                            assert(keys.contains(keys[m]));
                            assert(keys[m] != t);
                        }
                    }
                },
            }
            i += 1;
        }
        assert(linked.take(self.items.len() as int) =~= linked);
        assert(groups.deep_view() =~~= items_by_type_spec(linked));
        groups
    }

    /// The number of defects of each kind that occurs.
    pub fn defect_statistics(&self) -> (stats: Vec<(DefectType, usize)>)
        ensures
            stats@ == defect_statistics_spec(self@.defects),
    {
        let ghost defects = self@.defects;
        let mut stats: Vec<(DefectType, usize)> = Vec::new();
        let mut i: usize = 0;
        assert(defects.take(0) =~= Seq::<DefectView>::empty());
        while i < self.defects.len()
            invariant
                i <= self.defects.len(),
                defects == self@.defects,
                stats.len() == kinds_seen(defects.take(i as int)).len(),
                forall|e: int|
                    0 <= e < stats.len() ==> (#[trigger] stats[e]).0 == kinds_seen(
                        defects.take(i as int),
                    )[e] && stats[e].1 == count_of_kind(defects.take(i as int), stats[e].0),
            decreases self.defects.len() - i,
        {
            let ghost prefix = defects.take(i as int);
            let ghost next = defects.take(i + 1);
            let kind = self.defects[i].defect_type;
            assert(defects[i as int] == self.defects[i as int]@);
            assert(next.drop_last() =~= prefix);
            assert(next.last().defect_type == kind);
            let ghost keys = kinds_seen(prefix);
            proof {
                lemma_kinds_seen(prefix);
                lemma_count_of_kind(prefix, kind);
                lemma_count_of_kind(next, kind);
            }
            match find_kind(&stats, kind) {
                Some(e) => {
                    assert(keys.contains(kind)) by {
                        assert(keys[e as int] == kind);
                    }
                    let count = stats[e].1 + 1;
                    stats[e].1 = count;
                    assert forall|m: int| 0 <= m < stats.len() implies (#[trigger] stats[m]).0
                        == kinds_seen(next)[m] && stats[m].1 == count_of_kind(next, stats[m].0) by {
                        if m != e {
                            assert(keys[m] != keys[e as int]);
                        }
                    }
                },
                None => {
                    assert(!keys.contains(kind)) by {
                        if keys.contains(kind) {
                            let w = choose|w: int| 0 <= w < keys.len() && keys[w] == kind;
                            assert(stats[w].0 == kind);
                        }
                    }
                    stats.push((kind, 1));
                    assert forall|m: int| 0 <= m < stats.len() implies (#[trigger] stats[m]).0
                        == kinds_seen(next)[m] && stats[m].1 == count_of_kind(next, stats[m].0) by {
                        if m < keys.len() {
                            assert(keys.contains(keys[m]));
                            assert(keys[m] != kind);
                        }
                    }
                },
            }
            i += 1;
        }
        assert(defects.take(self.defects.len() as int) =~= defects);
        proof {
            lemma_kinds_seen(defects);
        }
        assert(stats@ =~= defect_statistics_spec(defects));
        stats
    }
}

/// `n` and one more, as far as the machine can count.
pub open spec fn bump(n: usize) -> usize {
    if n < usize::MAX {
        (n + 1) as usize
    } else {
        n
    }
}

/// The artifact types that a description asks coverage by: what follows
/// the first `needs coverage by ` up to the next `;`, trimmed, split at
/// commas, each entry trimmed.
pub open spec fn needed_types_in(description: Seq<char>) -> Seq<Seq<char>> {
    match find_spec(description, "needs coverage by "@) {
        Some(at) => {
            let rest = description.skip(at + "needs coverage by "@.len());
            let list = trim_spec(split_on(rest, ';')[0]);
            Seq::new(split_on(list, ',').len(), |i: int| trim_spec(split_on(list, ',')[i]))
        },
        None => Seq::empty(),
    }
}

/// How often each artifact type is asked for, and how many defects there
/// are of the other sorts.
pub struct Tally {
    /// The artifact types asked for, in the order of strings, each with
    /// the number of times it is asked for.
    pub needs: Vec<(String, usize)>,
    /// Defects about coverage of what does not exist.
    pub orphaned: usize,
    /// Defects about duplicate items.
    pub duplicate: usize,
    /// Defects about coverage of a wrong revision.
    pub wrong_revision: usize,
    /// Defects about circular dependencies.
    pub circular: usize,
}

/// A tally as a mathematical value.
pub struct TallyView {
    pub needs: Seq<(Seq<char>, usize)>,
    pub orphaned: usize,
    pub duplicate: usize,
    pub wrong_revision: usize,
    pub circular: usize,
}

impl DeepView for Tally {
    type V = TallyView;

    open spec fn deep_view(&self) -> TallyView {
        TallyView {
            needs: self.needs.deep_view(),
            orphaned: self.orphaned,
            duplicate: self.duplicate,
            wrong_revision: self.wrong_revision,
            circular: self.circular,
        }
    }
}

impl View for Tally {
    type V = TallyView;

    open spec fn view(&self) -> TallyView {
        self.deep_view()
    }
}

/// The position of the first entry whose type does not come before `key`.
pub open spec fn key_position(needs: Seq<(Seq<char>, usize)>, key: Seq<char>) -> int
    decreases needs.len(),
{
    if needs.len() == 0 {
        0
    } else if !text_less(needs[0].0, key) {
        0
    } else {
        1 + key_position(needs.drop_first(), key)
    }
}

/// The counts with one more request for the type `key`: its entry counted
/// up, or a new entry put in where the order of strings has it.
pub open spec fn count_need(needs: Seq<(Seq<char>, usize)>, key: Seq<char>) -> Seq<
    (Seq<char>, usize),
> {
    let at = key_position(needs, key);
    if at < needs.len() && needs[at].0 == key {
        needs.update(at, (key, bump(needs[at].1)))
    } else {
        needs.insert(at, (key, 1usize))
    }
}

/// The counts with one more request for each of the first `n` of `keys`.
pub open spec fn count_needs(needs: Seq<(Seq<char>, usize)>, keys: Seq<Seq<char>>, n: int) -> Seq<
    (Seq<char>, usize),
>
    decreases n,
{
    if n <= 0 {
        needs
    } else {
        count_need(count_needs(needs, keys, n - 1), keys[n - 1])
    }
}

/// The tally with one defect counted in. A defect about missing coverage
/// counts for the types that its description names, or, where it speaks
/// of an item that does not exist, as orphaned; every other defect counts
/// for its kind.
pub open spec fn tally_defect(tally: TallyView, defect: DefectView) -> TallyView {
    match defect.defect_type {
        DefectType::UncoveredItem => {
            if find_spec(defect.description, "needs coverage by"@) is Some {
                let keys = needed_types_in(defect.description);
                TallyView { needs: count_needs(tally.needs, keys, keys.len() as int), ..tally }
            } else if find_spec(defect.description, "covers non-existing"@) is Some {
                TallyView { orphaned: bump(tally.orphaned), ..tally }
            } else {
                tally
            }
        },
        DefectType::OrphanedCoverage => TallyView { orphaned: bump(tally.orphaned), ..tally },
        DefectType::DuplicateItem => TallyView { duplicate: bump(tally.duplicate), ..tally },
        DefectType::WrongRevision => TallyView {
            wrong_revision: bump(tally.wrong_revision),
            ..tally
        },
        DefectType::CircularDependency => TallyView { circular: bump(tally.circular), ..tally },
    }
}

/// The tally of the first `n` defects.
pub open spec fn tally_upto(defects: Seq<DefectView>, n: int) -> TallyView
    decreases n,
{
    if n <= 0 {
        TallyView {
            needs: Seq::empty(),
            orphaned: 0,
            duplicate: 0,
            wrong_revision: 0,
            circular: 0,
        }
    } else {
        tally_defect(tally_upto(defects, n - 1), defects[n - 1])
    }
}

/// A count followed by a text.
pub open spec fn counted(count: usize, text: Seq<char>) -> Seq<char> {
    decimal_digits(count as nat) + text
}

/// The message for a sort of defect, if any defect is of that sort.
pub open spec fn sort_message(count: usize, text: Seq<char>) -> Seq<Seq<char>> {
    if count > 0 {
        seq![counted(count, text)]
    } else {
        Seq::empty()
    }
}

/// What a tally says in words: one message per artifact type asked for,
/// in the order of strings, then one message per other sort of defect
/// that occurs.
pub open spec fn tally_messages(tally: TallyView) -> Seq<Seq<char>> {
    Seq::new(
        tally.needs.len(),
        |i: int| counted(tally.needs[i].1, " item(s) need coverage by "@ + tally.needs[i].0),
    ) + sort_message(tally.orphaned, " item(s) have orphaned coverage"@) + sort_message(
        tally.duplicate,
        " duplicate item(s) found"@,
    ) + sort_message(tally.wrong_revision, " item(s) cover wrong revision"@) + sort_message(
        tally.circular,
        " circular dependenc(ies) detected"@,
    )
}

/// What the defects say in words.
pub open spec fn statistics_messages_spec(defects: Seq<DefectView>) -> Seq<Seq<char>> {
    tally_messages(tally_upto(defects, defects.len() as int))
}

/// `n` and one more, as far as the machine can count.
fn bumped(n: usize) -> (r: usize)
    ensures
        r == bump(n),
{
    if n < usize::MAX {
        n + 1
    } else {
        n
    }
}

/// Counts one more request for the type `key`.
pub fn add_need(needs: &mut Vec<(String, usize)>, key: String)
    ensures
        final(needs).deep_view() == count_need(old(needs).deep_view(), key@),
{
    let ghost before = needs.deep_view();
    let mut at: usize = 0;
    assert(before.skip(0) =~= before);
    while at < needs.len() && is_text_less(&needs[at].0, &key)
        invariant
            at <= needs.len(),
            before == needs.deep_view(),
            key_position(before, key@) == at + key_position(before.skip(at as int), key@),
        decreases needs.len() - at,
    {
        assert(before.skip(at as int)[0] == before[at as int]);
        assert(before[at as int].0 == needs[at as int].0@);
        assert(before.skip(at as int).drop_first() =~= before.skip(at + 1));
        at += 1;
    }
    assert(key_position(before, key@) == at) by {
        if at < needs.len() {
            assert(before.skip(at as int)[0] == before[at as int]);
            assert(before[at as int].0 == needs[at as int].0@);
        }
    }
    if at < needs.len() && needs[at].0 == key {
        assert(before[at as int] == (needs[at as int].0@, needs[at as int].1));
        let count = bumped(needs[at].1);
        needs[at].1 = count;
        assert(needs.deep_view() =~~= before.update(at as int, (key@, count)));
    } else {
        if at < needs.len() {
            assert(before[at as int].0 == needs[at as int].0@);
        }
        let ghost view = key@;
        needs.insert(at, (key, 1));
        assert(needs.deep_view() =~~= before.insert(at as int, (view, 1usize)));
    }
}

/// The artifact types that a description asks coverage by.
pub fn needed_types(description: &String) -> (keys: Vec<String>)
    ensures
        keys.deep_view() == needed_types_in(description@),
{
    let text = to_chars(description.as_str());
    let marker = to_chars("needs coverage by ");
    let mut keys: Vec<String> = Vec::new();
    match find_chars(&text, &marker) {
        Some(at) => {
            let rest = copy_range(&text, at + marker.len(), text.len());
            assert(rest@ =~= description@.skip(at + "needs coverage by "@.len()));
            let pieces = split_chars(&rest, ';');
            proof {
                lemma_split_on_nonempty(rest@, ';');
            }
            assert(pieces.deep_view()[0] == pieces[0]@);
            let list = trim_chars(&pieces[0]);
            let entries = split_chars(&list, ',');
            let ghost parts = split_on(list@, ',');
            let mut i: usize = 0;
            while i < entries.len()
                invariant
                    i <= entries.len(),
                    entries.deep_view() == parts,
                    keys.len() == i,
                    forall|k: int| 0 <= k < i ==> (#[trigger] keys[k])@ == trim_spec(parts[k]),
                decreases entries.len() - i,
            {
                assert(entries.deep_view()[i as int] == entries[i as int]@);
                let entry = trim_chars(&entries[i]);
                keys.push(string_of(&entry));
                i += 1;
            }
            assert(keys.deep_view() =~~= needed_types_in(description@));
        },
        None => {
            assert(keys.deep_view() =~~= needed_types_in(description@));
        },
    }
    keys
}

/// Whether `needle` occurs in `text`.
fn contains_text(text: &String, needle: &str) -> (r: bool)
    ensures
        r == (find_spec(text@, needle@) is Some),
{
    let hay = to_chars(text.as_str());
    let pattern = to_chars(needle);
    find_chars(&hay, &pattern).is_some()
}

/// Counts one defect into the tally.
pub fn count_defect(tally: Tally, defect: &Defect) -> (r: Tally)
    ensures
        r@ == tally_defect(tally@, defect@),
{
    let mut tally = tally;
    match defect.defect_type {
        DefectType::UncoveredItem => {
            if contains_text(&defect.description, "needs coverage by") {
                let keys = needed_types(&defect.description);
                let ghost start = tally@;
                let ghost wanted = keys.deep_view();
                let mut i: usize = 0;
                while i < keys.len()
                    invariant
                        i <= keys.len(),
                        wanted == keys.deep_view(),
                        tally@ == (TallyView {
                            needs: count_needs(start.needs, wanted, i as int),
                            ..start
                        }),
                    decreases keys.len() - i,
                {
                    assert(wanted[i as int] == keys[i as int]@);
                    add_need(&mut tally.needs, keys[i].clone());
                    i += 1;
                }
            } else if contains_text(&defect.description, "covers non-existing") {
                tally.orphaned = bumped(tally.orphaned);
            }
        },
        DefectType::OrphanedCoverage => {
            tally.orphaned = bumped(tally.orphaned);
        },
        DefectType::DuplicateItem => {
            tally.duplicate = bumped(tally.duplicate);
        },
        DefectType::WrongRevision => {
            tally.wrong_revision = bumped(tally.wrong_revision);
        },
        DefectType::CircularDependency => {
            tally.circular = bumped(tally.circular);
        },
    }
    tally
}

/// A count followed by a text.
fn counted_text(count: usize, text: &str) -> (message: String)
    ensures
        message@ == counted(count, text@),
{
    let digits = u64_to_chars(count as u64);
    string_of(&digits).concat(text)
}

/// Appends the message for a sort of defect, if any defect is of that sort.
fn push_sort_message(messages: &mut Vec<String>, count: usize, text: &str)
    ensures
        final(messages).deep_view() == old(messages).deep_view() + sort_message(count, text@),
{
    let ghost before = messages.deep_view();
    if count > 0 {
        messages.push(counted_text(count, text));
        assert(messages.deep_view() =~~= before + sort_message(count, text@));
    } else {
        assert(before + sort_message(count, text@) =~= before);
    }
}

/// Says in words what a tally holds.
pub fn messages_of(tally: &Tally) -> (messages: Vec<String>)
    ensures
        messages.deep_view() == tally_messages(tally@),
{
    let ghost view = tally@;
    let mut messages: Vec<String> = Vec::new();
    let mut i: usize = 0;
    while i < tally.needs.len()
        invariant
            i <= tally.needs.len(),
            view == tally@,
            messages.len() == i,
            forall|k: int|
                0 <= k < i ==> (#[trigger] messages[k])@ == counted(
                    view.needs[k].1,
                    " item(s) need coverage by "@ + view.needs[k].0,
                ),
        decreases tally.needs.len() - i,
    {
        assert(view.needs[i as int] == (tally.needs[i as int].0@, tally.needs[i as int].1));
        let text = String::from_str(" item(s) need coverage by ").concat(
            tally.needs[i].0.as_str(),
        );
        messages.push(counted_text(tally.needs[i].1, text.as_str()));
        i += 1;
    }
    assert(messages.deep_view() =~~= Seq::new(
        view.needs.len(),
        |i: int| counted(view.needs[i].1, " item(s) need coverage by "@ + view.needs[i].0),
    ));
    push_sort_message(&mut messages, tally.orphaned, " item(s) have orphaned coverage");
    push_sort_message(&mut messages, tally.duplicate, " duplicate item(s) found");
    push_sort_message(&mut messages, tally.wrong_revision, " item(s) cover wrong revision");
    push_sort_message(&mut messages, tally.circular, " circular dependenc(ies) detected");
    messages
}

impl TraceResult {
    /// What the defects say in words: how many items need coverage by
    /// each artifact type, and how many defects there are of other sorts.
    pub fn defect_statistics_messages(&self) -> (messages: Vec<String>)
        ensures
            messages.deep_view() == statistics_messages_spec(self@.defects),
    {
        let ghost defects = self@.defects;
        let mut tally = Tally {
            needs: Vec::new(),
            orphaned: 0,
            duplicate: 0,
            wrong_revision: 0,
            circular: 0,
        };
        assert(tally@.needs =~= Seq::empty());
        let mut i: usize = 0;
        while i < self.defects.len()
            invariant
                i <= self.defects.len(),
                defects == self@.defects,
                tally@ == tally_upto(defects, i as int),
            decreases self.defects.len() - i,
        {
            assert(defects[i as int] == self.defects[i as int]@);
            tally = count_defect(tally, &self.defects[i]);
            i += 1;
        }
        messages_of(&tally)
    }
}

} // verus!
