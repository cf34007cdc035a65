//! Named custom bitmaps. A name is the only key: saving under a name that is
//! already stored replaces its bitmap.

use vstd::prelude::*;
use crate::protocol::BITMAP_LEN;
use crate::text::same_text;

verus! {

/// A bitmap saved under a name.
#[derive(Clone, Debug)]
pub struct CustomPreset {
    pub name: String,
    pub image_data: Vec<u8>,
}

/// Why a preset could not be saved.
#[derive(Clone, Debug, PartialEq, Eq)]
pub enum PresetError {
    /// The bitmap does not have exactly `expected` cells.
    SizeMismatch { expected: usize, actual: usize },
    /// The store changed in memory but could not be written out.
    Persistence(String),
}

/// The store after saving `img` under `name`: a bitmap of the wrong size
/// leaves it as it was.
pub open spec fn after_save(
    store: Map<Seq<char>, Seq<u8>>,
    name: Seq<char>,
    img: Seq<u8>,
) -> Map<Seq<char>, Seq<u8>> {
    if img.len() == BITMAP_LEN {
        store.insert(name, img)
    } else {
        store
    }
}

/// The store after deleting `name`; deleting a name that is not there
/// changes nothing.
pub open spec fn after_delete(store: Map<Seq<char>, Seq<u8>>, name: Seq<char>) -> Map<
    Seq<char>,
    Seq<u8>,
> {
    store.remove(name)
}

/// What loading `name` gives.
pub open spec fn lookup(store: Map<Seq<char>, Seq<u8>>, name: Seq<char>) -> Option<Seq<u8>> {
    if store.contains_key(name) {
        Some(store[name])
    } else {
        None
    }
}

/// The custom bitmaps, each under its own name.
pub struct PresetManager {
    presets: Vec<CustomPreset>,
}

spec fn holds_name(s: Seq<CustomPreset>, k: Seq<char>) -> bool {
    exists|i: int| 0 <= i < s.len() && #[trigger] s[i].name@ == k
}

spec fn position_of(s: Seq<CustomPreset>, k: Seq<char>) -> int {
    choose|i: int| 0 <= i < s.len() && #[trigger] s[i].name@ == k
}

spec fn names_unique(s: Seq<CustomPreset>) -> bool {
    forall|i: int, j: int|
        0 <= i < s.len() && 0 <= j < s.len() && i != j ==> #[trigger] s[i].name@ != #[trigger] s[j].name@
}

spec fn entries_map(s: Seq<CustomPreset>) -> Map<Seq<char>, Seq<u8>> {
    Map::new(|k: Seq<char>| holds_name(s, k), |k: Seq<char>| s[position_of(s, k)].image_data@)
}

proof fn lemma_entry(s: Seq<CustomPreset>, i: int)
    requires
        names_unique(s),
        0 <= i < s.len(),
    ensures
        entries_map(s).contains_key(s[i].name@),
        entries_map(s)[s[i].name@] == s[i].image_data@,
{
    let k = s[i].name@;
    assert(holds_name(s, k));
    let j = position_of(s, k);
    assert(s[j].name@ == k);
}

impl View for PresetManager {
    type V = Map<Seq<char>, Seq<u8>>;

    closed spec fn view(&self) -> Map<Seq<char>, Seq<u8>> {
        entries_map(self.presets@)
    }
}

impl PresetManager {
    /// Names are unique and every stored bitmap has exactly 306 cells.
    pub closed spec fn wf(&self) -> bool {
        &&& names_unique(self.presets@)
        &&& forall|i: int|
            0 <= i < self.presets@.len() ==> (#[trigger] self.presets@[i]).image_data@.len()
                == BITMAP_LEN
    }

    /// Every stored bitmap has exactly 306 cells.
    pub proof fn lemma_stored_bitmaps_are_full(&self)
        requires
            self.wf(),
        ensures
            forall|k: Seq<char>| #[trigger] self@.contains_key(k) ==> self@[k].len() == BITMAP_LEN,
    {
        assert forall|k: Seq<char>| #[trigger] self@.contains_key(k) implies self@[k].len()
            == BITMAP_LEN by {
            let i = position_of(self.presets@, k);
            assert(self.presets@[i].image_data@.len() == BITMAP_LEN);
        }
    }

    /// An empty store.
    pub fn new() -> (r: Self)
        ensures
            r.wf(),
            r@ == Map::<Seq<char>, Seq<u8>>::empty(),
    {
        let r = PresetManager { presets: Vec::new() };
        assert(r@ =~= Map::<Seq<char>, Seq<u8>>::empty());
        r
    }

    fn find(&self, name: &str) -> (r: Option<usize>)
        ensures
            match r {
                Some(i) => i < self.presets@.len() && self.presets@[i as int].name@ == name@,
                None => !holds_name(self.presets@, name@),
            },
    {
        let mut i: usize = 0;
        while i < self.presets.len()
            invariant
                i <= self.presets@.len(),
                forall|j: int| 0 <= j < i ==> #[trigger] self.presets@[j].name@ != name@,
            decreases self.presets@.len() - i,
        {
            if same_text(self.presets[i].name.as_str(), name) {
                return Some(i);
            }
            i = i + 1;
        }
        None
    }

    /// Saves `image_data` under `name`, replacing a bitmap already saved
    /// under it. A bitmap without exactly 306 cells is refused with
    /// `SizeMismatch` and the store is left as it was.
    pub fn save_preset(&mut self, name: String, image_data: Vec<u8>) -> (r: Result<(), PresetError>)
        requires
            old(self).wf(),
        ensures
            final(self).wf(),
            final(self)@ == after_save(old(self)@, name@, image_data@),
            r is Ok <==> image_data@.len() == BITMAP_LEN,
            r is Err ==> r == Err::<(), PresetError>(
                PresetError::SizeMismatch { expected: BITMAP_LEN, actual: image_data@.len() as usize },
            ),
    {
        if image_data.len() != BITMAP_LEN {
            return Err(PresetError::SizeMismatch { expected: BITMAP_LEN, actual: image_data.len() });
        }
        let ghost old_entries = self.presets@;
        let ghost key = name@;
        let ghost img = image_data@;
        match self.find(name.as_str()) {
            Some(i) => {
                self.presets[i] = CustomPreset { name, image_data };
                proof {
                    let s = self.presets@;
                    assert(names_unique(s)) by {
                        assert forall|a: int, b: int|
                            0 <= a < s.len() && 0 <= b < s.len() && a != b implies #[trigger] s[a].name@
                            != #[trigger] s[b].name@ by {
                            assert(old_entries[a].name@ != old_entries[b].name@);
                        }
                    }
                    assert forall|k: Seq<char>| holds_name(s, k) == holds_name(old_entries, k) by {
                        if holds_name(s, k) {
                            let j = choose|j: int| 0 <= j < s.len() && #[trigger] s[j].name@ == k;
                            assert(old_entries[j].name@ == k);
                        }
                        if holds_name(old_entries, k) {
                            let j = choose|j: int| 0 <= j < old_entries.len() && #[trigger] old_entries[j].name@ == k;
                            assert(s[j].name@ == k);
                        }
                    }
                    assert forall|k: Seq<char>| #[trigger] entries_map(s).contains_key(k) && k != key
                        implies entries_map(s)[k] == entries_map(old_entries)[k] by {
                        let j = position_of(s, k);
                        lemma_entry(s, j);
                        lemma_entry(old_entries, j);
                    }
                    lemma_entry(s, i as int);
                    assert(entries_map(s) =~= entries_map(old_entries).insert(key, img));
                }
            },
            None => {
                self.presets.push(CustomPreset { name, image_data });
                proof {
                    let s = self.presets@;
                    let n = old_entries.len() as int;
                    assert(names_unique(s)) by {
                        assert forall|a: int, b: int|
                            0 <= a < s.len() && 0 <= b < s.len() && a != b implies #[trigger] s[a].name@
                            != #[trigger] s[b].name@ by {
                            if a < n && b < n {
                                assert(old_entries[a].name@ != old_entries[b].name@);
                            } else if a < n {
                                assert(old_entries[a].name@ == s[a].name@);
                            } else {
                                assert(old_entries[b].name@ == s[b].name@);
                            }
                        }
                    }
                    assert forall|k: Seq<char>| holds_name(s, k) == (holds_name(old_entries, k) || k == key) by {
                        if holds_name(s, k) {
                            let j = choose|j: int| 0 <= j < s.len() && #[trigger] s[j].name@ == k;
                            if j < n {
                                assert(old_entries[j].name@ == k);
                            }
                        }
                        if holds_name(old_entries, k) {
                            let j = choose|j: int| 0 <= j < old_entries.len() && #[trigger] old_entries[j].name@ == k;
                            assert(s[j].name@ == k);
                        }
                        if k == key {
                            assert(s[n].name@ == k);
                        }
                    }
                    assert forall|k: Seq<char>| #[trigger] entries_map(s).contains_key(k) && k != key
                        implies entries_map(s)[k] == entries_map(old_entries)[k] by {
                        let j = position_of(s, k);
                        lemma_entry(s, j);
                        lemma_entry(old_entries, j);
                    }
                    lemma_entry(s, n);
                    assert(entries_map(s) =~= entries_map(old_entries).insert(key, img));
                }
            },
        }
        Ok(())
    }

    /// The bitmap saved under `name`, if any.
    pub fn get_preset(&self, name: &str) -> (r: Option<Vec<u8>>)
        requires
            self.wf(),
        ensures
            match r {
                Some(v) => lookup(self@, name@) == Some(v@),
                None => lookup(self@, name@) == None::<Seq<u8>>,
            },
    {
        match self.find(name) {
            Some(i) => {
                proof {
                    lemma_entry(self.presets@, i as int);
                }
                Some(self.presets[i].image_data.clone())
            },
            None => None,
        }
    }

    /// Removes the bitmap saved under `name`; a name that is not stored is no
    /// error.
    pub fn delete_preset(&mut self, name: &str)
        requires
            old(self).wf(),
        ensures
            final(self).wf(),
            final(self)@ == after_delete(old(self)@, name@),
    {
        let ghost old_entries = self.presets@;
        match self.find(name) {
            Some(i) => {
                self.presets.remove(i);
                proof {
                    let s = self.presets@;
                    let key = name@;
                    assert forall|a: int| 0 <= a < s.len() implies #[trigger] s[a] == old_entries[if a
                        < i {
                        a
                    } else {
                        a + 1
                    }] by {}
                    assert(names_unique(s)) by {
                        assert forall|a: int, b: int|
                            0 <= a < s.len() && 0 <= b < s.len() && a != b implies #[trigger] s[a].name@
                            != #[trigger] s[b].name@ by {
                            let oa = if a < i { a } else { a + 1 };
                            let ob = if b < i { b } else { b + 1 };
                            assert(old_entries[oa].name@ != old_entries[ob].name@);
                        }
                    }
                    assert forall|k: Seq<char>| holds_name(s, k) == (holds_name(old_entries, k) && k != key) by {
                        if holds_name(s, k) {
                            let j = choose|j: int| 0 <= j < s.len() && #[trigger] s[j].name@ == k;
                            let oj = if j < i { j } else { j + 1 };
                            assert(old_entries[oj].name@ == k);
                            assert(old_entries[i as int].name@ == key);
                        }
                        if holds_name(old_entries, k) && k != key {
                            let j = choose|j: int| 0 <= j < old_entries.len() && #[trigger] old_entries[j].name@ == k;
                            assert(j != i);
                            let nj = if j < i { j } else { j - 1 };
                            assert(s[nj].name@ == k);
                        }
                    }
                    assert forall|k: Seq<char>| #[trigger] entries_map(s).contains_key(k)
                        implies entries_map(s)[k] == entries_map(old_entries)[k] by {
                        let j = position_of(s, k);
                        let oj = if j < i { j } else { j + 1 };
                        lemma_entry(s, j);
                        lemma_entry(old_entries, oj);
                    }
                    assert(entries_map(s) =~= entries_map(old_entries).remove(key));
                }
            },
            None => {
                assert(entries_map(old_entries) =~= entries_map(old_entries).remove(name@));
            },
        }
    }

    /// The stored names, each once, in no promised order.
    pub fn list_presets(&self) -> (r: Vec<String>)
        requires
            self.wf(),
        ensures
            forall|i: int| 0 <= i < r@.len() ==> self@.contains_key(#[trigger] r@[i]@),
            forall|k: Seq<char>|
                #[trigger] self@.contains_key(k) ==> exists|i: int| 0 <= i < r@.len() && r@[i]@ == k,
            forall|i: int, j: int|
                0 <= i < r@.len() && 0 <= j < r@.len() && i != j ==> #[trigger] r@[i]@ != #[trigger] r@[j]@,
    {
        let mut names: Vec<String> = Vec::new();
        let mut i: usize = 0;
        while i < self.presets.len()
            invariant
                self.wf(),
                i <= self.presets@.len(),
                names@.len() == i,
                forall|j: int| 0 <= j < i ==> #[trigger] names@[j]@ == self.presets@[j].name@,
            decreases self.presets@.len() - i,
        {
            names.push(self.presets[i].name.clone());
            i = i + 1;
        }
        proof {
            assert forall|j: int| 0 <= j < names@.len() implies self@.contains_key(#[trigger] names@[j]@) by {
                lemma_entry(self.presets@, j);
            }
            assert forall|k: Seq<char>| #[trigger] self@.contains_key(k) implies exists|j: int|
                0 <= j < names@.len() && names@[j]@ == k by {
                let j = position_of(self.presets@, k);
                assert(names@[j]@ == k);
            }
        }
        names
    }
}

/// Saving a full bitmap and loading it back gives that bitmap; saving one of
/// the wrong size leaves the store as it was; after deleting a name nothing
/// is loaded under it; deleting a name that is not stored changes nothing.
pub proof fn lemma_preset_round_trip(store: Map<Seq<char>, Seq<u8>>, name: Seq<char>, img: Seq<u8>)
    ensures
        img.len() == BITMAP_LEN ==> lookup(after_save(store, name, img), name) == Some(img),
        img.len() != BITMAP_LEN ==> after_save(store, name, img) == store,
        lookup(after_delete(store, name), name) == None::<Seq<u8>>,
        !store.contains_key(name) ==> after_delete(store, name) == store,
{
    if !store.contains_key(name) {
        assert(store.remove(name) =~= store);
    }
}

} // verus!
