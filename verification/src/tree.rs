//! The state tree: the actors' records by address, in address order.

use crate::codec::{
    lemma_take_field, lemma_take_word, push_field, push_u64, spec_field, spec_take_field,
    spec_take_word, take_field, take_word,
};
use crate::hash::{CodeId, ContentHash};
use vstd::bytes::spec_u64_to_le_bytes;
use vstd::prelude::*;

verus! {

/// What the tree holds of one actor: the code that runs it and the hash of its
/// serialised state. A record is never changed in place.
#[derive(Debug)]
pub struct ActorRecord {
    pub code: CodeId,
    pub head: ContentHash,
}

/// A record as a plain value.
pub struct ActorRecordView {
    pub code: Seq<u8>,
    pub head: Seq<u8>,
}

impl View for ActorRecord {
    type V = ActorRecordView;

    open spec fn view(&self) -> ActorRecordView {
        ActorRecordView { code: self.code@, head: self.head@ }
    }
}

impl Clone for ActorRecord {
    fn clone(&self) -> (copy: Self)
        ensures
            copy@ == self@,
    {
        ActorRecord { code: self.code.clone(), head: self.head.clone() }
    }
}

/// An actor's address with its record.
#[derive(Debug)]
pub struct TreeEntry {
    pub address: u64,
    pub record: ActorRecord,
}

/// Whether the addresses of a list of entries rise strictly, so that no
/// address stands twice.
pub open spec fn ascending<V>(list: Seq<(u64, V)>) -> bool {
    forall|i: int, j: int| 0 <= i < j < list.len() ==> list[i].0 < list[j].0
}

/// The map that a list of entries stands for.
pub open spec fn entries_map<V>(list: Seq<(u64, V)>) -> Map<u64, V>
    decreases list.len(),
{
    if list.len() == 0 {
        Map::empty()
    } else {
        entries_map(list.drop_last()).insert(list.last().0, list.last().1)
    }
}

/// The map holds the addresses of the list and no others.
pub proof fn lemma_map_keys<V>(list: Seq<(u64, V)>, address: u64)
    ensures
        entries_map(list).contains_key(address) <==> exists|i: int|
            0 <= i < list.len() && list[i].0 == address,
    decreases list.len(),
{
    if list.len() > 0 {
        let front = list.drop_last();
        lemma_map_keys(front, address);
        if entries_map(list).contains_key(address) {
            if list.last().0 == address {
                assert(list[list.len() - 1].0 == address);
            } else {
                let i = choose|i: int| 0 <= i < front.len() && front[i].0 == address;
                assert(list[i].0 == address);
            }
        }
        if exists|i: int| 0 <= i < list.len() && list[i].0 == address {
            let i = choose|i: int| 0 <= i < list.len() && list[i].0 == address;
            if i < list.len() - 1 {
                assert(front[i].0 == address);
            }
        }
    }
}

/// Where the addresses rise, the map gives each address the record that the
/// list holds beside it.
pub proof fn lemma_map_at<V>(list: Seq<(u64, V)>, i: int)
    requires
        ascending(list),
        0 <= i < list.len(),
    ensures
        entries_map(list).contains_key(list[i].0),
        entries_map(list)[list[i].0] == list[i].1,
    decreases list.len(),
{
    if i < list.len() - 1 {
        let front = list.drop_last();
        assert(ascending(front));
        lemma_map_at(front, i);
        assert(front[i] == list[i]);
        assert(list[i].0 < list[list.len() - 1].0);
    }
}

/// An entry put into the list before entries of other addresses adds its
/// address to the map, or takes the address over.
pub proof fn lemma_map_insert<V>(list: Seq<(u64, V)>, at: int, entry: (u64, V))
    requires
        0 <= at <= list.len(),
        forall|j: int| at <= j < list.len() ==> list[j].0 != entry.0,
    ensures
        entries_map(list.insert(at, entry)) == entries_map(list).insert(entry.0, entry.1),
    decreases list.len(),
{
    let longer = list.insert(at, entry);
    if at == list.len() {
        assert(longer.drop_last() =~= list);
    } else {
        let front = list.drop_last();
        assert(longer.drop_last() =~= front.insert(at, entry));
        assert(longer.last() == list.last());
        lemma_map_insert(front, at, entry);
        assert(entries_map(longer) =~= entries_map(list).insert(entry.0, entry.1));
    }
}

/// An entry that takes the place of one with the same address takes the
/// address over in the map.
pub proof fn lemma_map_update<V>(list: Seq<(u64, V)>, at: int, entry: (u64, V))
    requires
        ascending(list),
        0 <= at < list.len(),
        list[at].0 == entry.0,
    ensures
        entries_map(list.update(at, entry)) == entries_map(list).insert(entry.0, entry.1),
        ascending(list.update(at, entry)),
    decreases list.len(),
{
    let changed = list.update(at, entry);
    let front = list.drop_last();
    if at == list.len() - 1 {
        assert(changed.drop_last() =~= front);
        assert(entries_map(changed) =~= entries_map(list).insert(entry.0, entry.1));
    } else {
        assert(ascending(front));
        assert(changed.drop_last() =~= front.update(at, entry));
        assert(changed.last() == list.last());
        lemma_map_update(front, at, entry);
        assert(list[at].0 < list[list.len() - 1].0);
        assert(entries_map(changed) =~= entries_map(list).insert(entry.0, entry.1));
    }
}

/// Two lists with rising addresses that stand for the same map are the same
/// list: a tree has one form only, whatever the order in which it was built.
pub proof fn lemma_one_form<V>(a: Seq<(u64, V)>, b: Seq<(u64, V)>)
    requires
        ascending(a),
        ascending(b),
        entries_map(a) == entries_map(b),
    ensures
        a == b,
    decreases a.len(),
{
    if a.len() == 0 {
        if b.len() > 0 {
            lemma_map_at(b, 0);
        }
        assert(a =~= b);
    } else if b.len() == 0 {
        lemma_map_at(a, 0);
    } else {
        let la = a.len() - 1;
        let lb = b.len() - 1;
        lemma_map_at(a, la);
        lemma_map_at(b, lb);
        lemma_map_keys(b, a[la].0);
        lemma_map_keys(a, b[lb].0);
        let ib = choose|i: int| 0 <= i < b.len() && b[i].0 == a[la].0;
        let ia = choose|i: int| 0 <= i < a.len() && a[i].0 == b[lb].0;
        assert(a[la].0 == b[lb].0) by {
            if ib < lb {
                assert(b[ib].0 < b[lb].0);
            }
            if ia < la {
                assert(a[ia].0 < a[la].0);
            }
        }
        assert(a[la].1 == b[lb].1);
        let fa = a.drop_last();
        let fb = b.drop_last();
        assert(ascending(fa));
        assert(ascending(fb));
        assert(entries_map(fa) =~= entries_map(fb)) by {
            assert forall|k: u64| #[trigger]
                entries_map(fa).dom().contains(k) == entries_map(fb).dom().contains(k) by {
                lemma_front_of_map(a, k);
                lemma_front_of_map(b, k);
            }
            assert forall|k: u64| entries_map(fa).dom().contains(k) implies #[trigger] entries_map(
                fa,
            )[k] == entries_map(fb)[k] by {
                lemma_front_of_map(a, k);
                lemma_front_of_map(b, k);
            }
        }
        lemma_one_form(fa, fb);
        assert(a =~= fa.push(a[la]));
        assert(b =~= fb.push(b[lb]));
    }
}

/// Where the addresses rise, the map of the list without its last entry is
/// the map of the list without the last address.
pub proof fn lemma_front_of_map<V>(list: Seq<(u64, V)>, address: u64)
    requires
        ascending(list),
        list.len() > 0,
    ensures
        entries_map(list.drop_last()).contains_key(address) <==> (entries_map(list).contains_key(
            address,
        ) && address != list.last().0),
        entries_map(list.drop_last()).contains_key(address) ==> entries_map(list.drop_last())[address]
            == entries_map(list)[address],
{
    let front = list.drop_last();
    lemma_map_keys(front, list.last().0);
    if exists|i: int| 0 <= i < front.len() && front[i].0 == list.last().0 {
        let i = choose|i: int| 0 <= i < front.len() && front[i].0 == list.last().0;
        assert(list[i].0 < list[list.len() - 1].0);
    }
}

/// The tree's canonical bytes for one record.
pub open spec fn spec_encode_record(record: ActorRecordView) -> Seq<u8> {
    spec_field(record.code) + spec_field(record.head)
}

/// The tree's canonical bytes for a list of entries: each address, then its
/// record.
pub open spec fn spec_encode_entries(list: Seq<(u64, ActorRecordView)>) -> Seq<u8>
    decreases list.len(),
{
    if list.len() == 0 {
        Seq::empty()
    } else {
        spec_encode_entries(list.drop_last()) + spec_u64_to_le_bytes(list.last().0)
            + spec_encode_record(list.last().1)
    }
}

/// The canonical bytes of a tree: the number of its entries, then the
/// entries in address order.
pub open spec fn spec_encode_tree(list: Seq<(u64, ActorRecordView)>) -> Seq<u8> {
    spec_u64_to_le_bytes(list.len() as u64) + spec_encode_entries(list)
}

/// The canonical bytes of one entry: its address, then its record.
pub open spec fn spec_encode_entry(entry: (u64, ActorRecordView)) -> Seq<u8> {
    spec_u64_to_le_bytes(entry.0) + spec_encode_record(entry.1)
}

/// The entry at the front of some bytes, with the bytes behind it.
pub open spec fn spec_take_entry(rest: Seq<u8>) -> Option<((u64, ActorRecordView), Seq<u8>)> {
    match spec_take_word(rest) {
        Some((address, after_address)) => match spec_take_field(after_address) {
            Some((code, after_code)) => match spec_take_field(after_code) {
                Some((head, after_head)) => Some(
                    ((address, ActorRecordView { code, head }), after_head),
                ),
                None => None,
            },
            None => None,
        },
        None => None,
    }
}

/// The entries that some bytes hold, where they hold just the given number
/// of them.
pub open spec fn spec_take_entries(rest: Seq<u8>, count: nat) -> Option<
    Seq<(u64, ActorRecordView)>,
>
    decreases count,
{
    if count == 0 {
        if rest.len() == 0 {
            Some(Seq::empty())
        } else {
            None
        }
    } else {
        match spec_take_entry(rest) {
            Some((entry, after)) => match spec_take_entries(after, (count - 1) as nat) {
                Some(others) => Some(seq![entry] + others),
                None => None,
            },
            None => None,
        }
    }
}

/// The entries of the tree that some bytes stand for, if they are the
/// canonical bytes of a tree: the number of entries, then just that many
/// entries, their addresses rising.
pub open spec fn spec_decode_tree(bytes: Seq<u8>) -> Option<Seq<(u64, ActorRecordView)>> {
    match spec_take_word(bytes) {
        Some((count, rest)) => match spec_take_entries(rest, count as nat) {
            Some(list) => if ascending(list) {
                Some(list)
            } else {
                None
            },
            None => None,
        },
        None => None,
    }
}

/// Whether the lengths of a list of entries can be written down: the number
/// of entries and the length of every code identifier and head fit an
/// integer of eight bytes.
pub open spec fn writable(list: Seq<(u64, ActorRecordView)>) -> bool {
    &&& list.len() <= u64::MAX
    &&& forall|i: int|
        0 <= i < list.len() ==> (#[trigger] list[i]).1.code.len() <= u64::MAX && list[i].1.head.len()
            <= u64::MAX
}

/// An entry that was written in front of some bytes is taken from them as it
/// was.
pub proof fn lemma_take_entry(entry: (u64, ActorRecordView), tail: Seq<u8>)
    requires
        entry.1.code.len() <= u64::MAX,
        entry.1.head.len() <= u64::MAX,
    ensures
        spec_take_entry(spec_encode_entry(entry) + tail) == Some((entry, tail)),
{
    let after_code = spec_field(entry.1.head) + tail;
    let after_address = spec_field(entry.1.code) + after_code;
    assert(spec_encode_entry(entry) + tail =~= spec_u64_to_le_bytes(entry.0) + after_address);
    lemma_take_word(entry.0, after_address);
    lemma_take_field(entry.1.code, after_code);
    lemma_take_field(entry.1.head, tail);
}

/// The bytes of a list of entries are the bytes of its first entry, then the
/// bytes of the others.
pub proof fn lemma_encode_entries_front(list: Seq<(u64, ActorRecordView)>)
    requires
        list.len() > 0,
    ensures
        spec_encode_entries(list) == spec_encode_entry(list[0]) + spec_encode_entries(
            list.drop_first(),
        ),
    decreases list.len(),
{
    if list.len() == 1 {
        assert(list.drop_last() =~= Seq::empty());
        assert(list.drop_first() =~= Seq::empty());
        assert(spec_encode_entries(list) =~= spec_encode_entry(list[0]) + spec_encode_entries(
            list.drop_first(),
        ));
    } else {
        let front = list.drop_last();
        lemma_encode_entries_front(front);
        assert(front.drop_first() =~= list.drop_first().drop_last());
        assert(front[0] == list[0]);
        assert(list.drop_first().last() == list.last());
        assert(spec_encode_entries(list) =~= spec_encode_entry(list[0]) + spec_encode_entries(
            list.drop_first(),
        ));
    }
}

/// The bytes of a list of entries hold just these entries.
pub proof fn lemma_take_entries(list: Seq<(u64, ActorRecordView)>)
    requires
        writable(list),
    ensures
        spec_take_entries(spec_encode_entries(list), list.len()) == Some(list),
    decreases list.len(),
{
    if list.len() > 0 {
        let others = list.drop_first();
        lemma_encode_entries_front(list);
        assert(writable(others)) by {
            assert forall|i: int| 0 <= i < others.len() implies (#[trigger] others[i]).1.code.len()
                <= u64::MAX && others[i].1.head.len() <= u64::MAX by {
                assert(others[i] == list[i + 1]);
            }
        }
        assert(list[0].1.code.len() <= u64::MAX && list[0].1.head.len() <= u64::MAX);
        lemma_take_entry(list[0], spec_encode_entries(others));
        lemma_take_entries(others);
        assert(seq![list[0]] + others =~= list);
    }
}

/// Round-trip of the tree's bytes: the canonical bytes of a tree decode to
/// that tree. So trees with equal bytes are equal.
pub proof fn lemma_tree_round_trip(list: Seq<(u64, ActorRecordView)>)
    requires
        ascending(list),
        writable(list),
    ensures
        spec_decode_tree(spec_encode_tree(list)) == Some(list),
{
    lemma_take_word(list.len() as u64, spec_encode_entries(list));
    lemma_take_entries(list);
}

/// Entries as plain values.
pub open spec fn entries_view(entries: Seq<TreeEntry>) -> Seq<(u64, ActorRecordView)> {
    Seq::new(entries.len(), |i: int| (entries[i].address, entries[i].record@))
}

/// A list of entries whose addresses do not rise, with whatever follows it,
/// is no tree.
proof fn lemma_not_ascending(
    done: Seq<(u64, ActorRecordView)>,
    entry: (u64, ActorRecordView),
    others: Seq<(u64, ActorRecordView)>,
)
    requires
        done.len() > 0,
        done.last().0 >= entry.0,
    ensures
        !ascending(done + (seq![entry] + others)),
{
    let all = done + (seq![entry] + others);
    assert(all[done.len() - 1] == done.last());
    assert(all[done.len() as int] == entry);
}

/// The one list with rising addresses that stands for a map.
pub open spec fn canonical_listing<V>(map: Map<u64, V>) -> Seq<(u64, V)> {
    choose|list: Seq<(u64, V)>| ascending(list) && entries_map(list) == map
}

/// A list with rising addresses is the canonical listing of its map.
pub proof fn lemma_listing_is_canonical<V>(list: Seq<(u64, V)>)
    requires
        ascending(list),
    ensures
        canonical_listing(entries_map(list)) == list,
{
    let found = canonical_listing(entries_map(list));
    assert(ascending(found) && entries_map(found) == entries_map(list));
    lemma_one_form(found, list);
}

/// The canonical bytes of the tree that a map of records stands for. They
/// depend on the records by address alone.
pub open spec fn spec_tree_bytes(map: Map<u64, ActorRecordView>) -> Seq<u8> {
    spec_encode_tree(canonical_listing(map))
}

/// The actors' records by address. The entries are kept in address order, and
/// no address stands twice.
#[derive(Debug)]
pub struct StateTree {
    entries: Vec<TreeEntry>,
}

impl View for StateTree {
    type V = Map<u64, ActorRecordView>;

    open spec fn view(&self) -> Map<u64, ActorRecordView> {
        entries_map(self.listed())
    }
}

impl StateTree {
    /// The entries in the order in which they are kept.
    pub closed spec fn listed(&self) -> Seq<(u64, ActorRecordView)> {
        entries_view(self.entries@)
    }

    /// The tree's invariant: the addresses rise strictly.
    #[verifier::type_invariant]
    pub open spec fn wf(&self) -> bool {
        ascending(self.listed())
    }

    /// A tree without actors.
    pub fn new() -> (tree: Self)
        ensures
            tree.wf(),
            tree.listed() == Seq::<(u64, ActorRecordView)>::empty(),
            tree@ == Map::<u64, ActorRecordView>::empty(),
    {
        let tree = StateTree { entries: Vec::new() };
        assert(tree.listed() =~= Seq::empty());
        tree
    }

    /// The number of actors.
    pub fn len(&self) -> (n: usize)
        ensures
            n == self.listed().len(),
            self.wf(),
    {
        proof {
            use_type_invariant(self);
        }
        self.entries.len()
    }

    /// The entry at a place in address order.
    pub fn entry(&self, i: usize) -> (entry: &TreeEntry)
        requires
            i < self.listed().len(),
        ensures
            (entry.address, entry.record@) == self.listed()[i as int],
            self.wf(),
    {
        proof {
            use_type_invariant(self);
        }
        &self.entries[i]
    }

    /// The first place whose address is not below the given one, found by
    /// halving the range in which it lies.
    fn lower_bound(&self, address: u64) -> (at: usize)
        ensures
            at <= self.listed().len(),
            forall|j: int| 0 <= j < at ==> self.listed()[j].0 < address,
            forall|j: int| at <= j < self.listed().len() ==> self.listed()[j].0 >= address,
    {
        proof {
            use_type_invariant(self);
        }
        let n = self.entries.len();
        // A tree that is filled in address order asks for the place behind
        // its last entry.
        if n == 0 || self.entries[n - 1].address < address {
            proof {
                let list = self.listed();
                assert(forall|j: int| 0 <= j < n ==> (#[trigger] list[j]).0 <= list[n - 1].0);
            }
            return n;
        }
        let mut low: usize = 0;
        let mut high: usize = n;
        while low < high
            invariant
                low <= high <= n == self.entries@.len(),
                self.listed().len() == n,
                self.wf(),
                forall|j: int| 0 <= j < low ==> self.listed()[j].0 < address,
                forall|j: int| high <= j < n ==> self.listed()[j].0 >= address,
            decreases high - low,
        {
            let mid = low + (high - low) / 2;
            if self.entries[mid].address < address {
                proof {
                    let list = self.listed();
                    assert(forall|j: int| 0 <= j <= mid ==> (#[trigger] list[j]).0 <= list[mid as int].0);
                }
                low = mid + 1;
            } else {
                proof {
                    let list = self.listed();
                    assert(forall|j: int| mid <= j < n ==> list[mid as int].0 <= (#[trigger] list[j]).0);
                }
                high = mid;
            }
        }
        low
    }

    /// The record of the actor at an address, if the tree has one.
    pub fn get(&self, address: u64) -> (found: Option<&ActorRecord>)
        ensures
            match found {
                Some(record) => self@.contains_key(address) && record@ == self@[address],
                None => !self@.contains_key(address),
            },
    {
        proof {
            use_type_invariant(self);
        }
        let at = self.lower_bound(address);
        if at < self.entries.len() && self.entries[at].address == address {
            proof {
                lemma_map_at(self.listed(), at as int);
            }
            Some(&self.entries[at].record)
        } else {
            proof {
                lemma_map_keys(self.listed(), address);
                let list = self.listed();
                assert(forall|j: int| at < j < list.len() ==> list[at as int].0 < (#[trigger] list[j]).0);
            }
            None
        }
    }

    /// Puts a record at an address. An address that the tree has gets the new
    /// record; the place of the entry follows from the address alone.
    pub fn insert(&mut self, address: u64, record: ActorRecord)
        ensures
            final(self).wf(),
            final(self)@ == old(self)@.insert(address, record@),
    {
        proof {
            use_type_invariant(&*self);
        }
        let ghost before = self.listed();
        let ghost added = (address, record@);
        let at = self.lower_bound(address);
        assert(before.len() == self.entries@.len());
        if at < self.entries.len() && self.entries[at].address == address {
            proof {
                lemma_map_update(before, at as int, added);
            }
            let mut entries: Vec<TreeEntry> = Vec::new();
            core::mem::swap(&mut self.entries, &mut entries);
            entries[at] = TreeEntry { address, record };
            assert(entries_view(entries@) =~= before.update(at as int, added));
            self.entries = entries;
            assert(self.listed() =~= before.update(at as int, added));
        } else {
            assert(forall|j: int| at <= j < before.len() ==> before[j].0 > address) by {
                if at < before.len() {
                    assert(before[at as int].0 > address);
                    assert(forall|j: int| at < j < before.len() ==> before[at as int].0
                        < before[j].0);
                }
            }
            let mut entries: Vec<TreeEntry> = Vec::new();
            core::mem::swap(&mut self.entries, &mut entries);
            entries.insert(at, TreeEntry { address, record });
            proof {
                let after = before.insert(at as int, added);
                assert(entries_view(entries@) =~= after);
                lemma_map_insert(before, at as int, added);
                assert forall|i: int, j: int| 0 <= i < j < after.len() implies after[i].0
                    < after[j].0 by {
                    if j < at {
                        assert(after[i] == before[i] && after[j] == before[j]);
                    } else if j == at {
                        assert(after[i] == before[i]);
                    } else if i < at {
                        assert(after[i] == before[i] && after[j] == before[j - 1]);
                    } else if i == at {
                        assert(after[j] == before[j - 1]);
                    } else {
                        assert(after[i] == before[i - 1] && after[j] == before[j - 1]);
                    }
                }
            }
            self.entries = entries;
            assert(self.listed() =~= before.insert(at as int, added));
        }
    }

    /// The tree that bytes stand for, if they are the canonical bytes of a
    /// tree.
    pub fn decode(bytes: &[u8]) -> (tree: Option<StateTree>)
        ensures
            match tree {
                Some(t) => t.wf() && spec_decode_tree(bytes@) == Some(t.listed()),
                None => spec_decode_tree(bytes@) is None,
            },
    {
        let (count, start) = match take_word(bytes, 0) {
            Some(taken) => taken,
            None => {
                assert(bytes@.skip(0) =~= bytes@);
                return None;
            },
        };
        assert(bytes@.skip(0) =~= bytes@);
        let ghost whole = spec_take_entries(bytes@.skip(start as int), count as nat);
        let mut entries: Vec<TreeEntry> = Vec::new();
        let mut at: usize = start;
        let mut i: u64 = 0;
        assert(entries_view(entries@) =~= Seq::empty());
        assert(whole matches Some(list) ==> Seq::<(u64, ActorRecordView)>::empty() + list
            =~= list);
        while i < count
            invariant
                i <= count,
                at <= bytes@.len(),
                entries@.len() == i,
                ascending(entries_view(entries@)),
                spec_take_word(bytes@) == Some((count, bytes@.skip(start as int))),
                whole == spec_take_entries(bytes@.skip(start as int), count as nat),
                whole == match spec_take_entries(bytes@.skip(at as int), (count - i) as nat) {
                    Some(others) => Some(entries_view(entries@) + others),
                    None => None,
                },
            decreases count - i,
        {
            let ghost done = entries_view(entries@);
            let ghost rest = bytes@.skip(at as int);
            let (address, after_address) = match take_word(bytes, at) {
                Some(taken) => taken,
                None => {
                    return None;
                },
            };
            let (code, after_code) = match take_field(bytes, after_address) {
                Some(taken) => taken,
                None => {
                    return None;
                },
            };
            let (head, after_head) = match take_field(bytes, after_code) {
                Some(taken) => taken,
                None => {
                    return None;
                },
            };
            let ghost entry = (address, ActorRecordView { code: code@, head: head@ });
            assert(spec_take_entry(rest) == Some((entry, bytes@.skip(after_head as int))));
            let ghost tail = spec_take_entries(
                bytes@.skip(after_head as int),
                (count - i - 1) as nat,
            );
            if entries.len() > 0 && entries[entries.len() - 1].address >= address {
                proof {
                    if tail is Some {
                        assert(done.last() == done[done.len() - 1]);
                        lemma_not_ascending(done, entry, tail->Some_0);
                    }
                }
                return None;
            }
            entries.push(
                TreeEntry {
                    address,
                    record: ActorRecord {
                        code: ContentHash::from_bytes(code),
                        head: ContentHash::from_bytes(head),
                    },
                },
            );
            proof {
                let grown = entries_view(entries@);
                assert(grown =~= done.push(entry));
                assert forall|a: int, b: int| 0 <= a < b < grown.len() implies grown[a].0
                    < grown[b].0 by {
                    if b == grown.len() - 1 {
                        if a < done.len() - 1 {
                            assert(done[a].0 < done[done.len() - 1].0);
                        }
                    } else {
                        assert(grown[a] == done[a] && grown[b] == done[b]);
                    }
                }
                if tail is Some {
                    assert(done + (seq![entry] + tail->Some_0) =~= grown + tail->Some_0);
                }
            }
            at = after_head;
            i = i + 1;
        }
        if at != bytes.len() {
            return None;
        }
        assert(bytes@.skip(at as int) =~= Seq::empty());
        assert(entries_view(entries@) + Seq::<(u64, ActorRecordView)>::empty() =~= entries_view(
            entries@,
        ));
        Some(StateTree { entries })
    }

    /// The canonical bytes of the tree.
    pub fn encode(&self) -> (bytes: Vec<u8>)
        ensures
            bytes@ == spec_encode_tree(self.listed()),
            bytes@ == spec_tree_bytes(self@),
            spec_decode_tree(bytes@) == Some(self.listed()),
    {
        proof {
            use_type_invariant(self);
            lemma_listing_is_canonical(self.listed());
        }
        let mut out: Vec<u8> = Vec::new();
        push_u64(&mut out, self.entries.len() as u64);
        let ghost head = out@;
        let mut i: usize = 0;
        assert(self.listed().take(0) =~= Seq::empty());
        while i < self.entries.len()
            invariant
                i <= self.entries@.len(),
                self.listed().len() == self.entries@.len(),
                head == spec_u64_to_le_bytes(self.listed().len() as u64),
                out@ == head + spec_encode_entries(self.listed().take(i as int)),
                forall|j: int|
                    0 <= j < i ==> (#[trigger] self.listed()[j]).1.code.len() <= u64::MAX
                        && self.listed()[j].1.head.len() <= u64::MAX,
            decreases self.entries@.len() - i,
        {
            let ghost done = out@;
            let entry = &self.entries[i];
            push_u64(&mut out, entry.address);
            push_field(&mut out, entry.record.code.as_bytes());
            push_field(&mut out, entry.record.head.as_bytes());
            proof {
                let next = self.listed().take(i + 1);
                assert(next.drop_last() =~= self.listed().take(i as int));
                assert(next.last() == self.listed()[i as int]);
                assert(out@ =~= head + spec_encode_entries(next));
            }
            i = i + 1;
        }
        assert(self.listed().take(i as int) =~= self.listed());
        proof {
            lemma_tree_round_trip(self.listed());
        }
        out
    }
}

} // verus!
