//! The state of a card being filled in, the list of spectrums a new card
//! starts with, and how a saved card is merged back into that list.
use vstd::prelude::*;

use crate::spectrum::Spectrum;

verus! {

/// A spectrum entry as the contracts see it: its name and its value.
pub open spec fn entry_view(entry: (String, Spectrum)) -> (Seq<char>, Spectrum) {
    (entry.0@, entry.1)
}

/// The entries of a list of spectrums, names taken as character sequences.
pub open spec fn entries(list: Seq<(String, Spectrum)>) -> Seq<(Seq<char>, Spectrum)> {
    list.map_values(|entry: (String, Spectrum)| entry_view(entry))
}

/// The value of the first entry named `key`, if any entry has that name.
pub open spec fn lookup(list: Seq<(Seq<char>, Spectrum)>, key: Seq<char>) -> Option<Spectrum>
    decreases list.len(),
{
    if list.len() == 0 {
        None
    } else if list[0].0 == key {
        Some(list[0].1)
    } else {
        lookup(list.drop_first(), key)
    }
}

/// `current` with each value replaced by the value that `saved` holds under the
/// same name (its first entry of that name); names that `saved` lacks keep
/// their value, and entries of `saved` whose name is not in `current` are dropped.
pub open spec fn merge_spec(
    current: Seq<(Seq<char>, Spectrum)>,
    saved: Seq<(Seq<char>, Spectrum)>,
) -> Seq<(Seq<char>, Spectrum)> {
    Seq::new(
        current.len(),
        |i: int|
            (
                current[i].0,
                match lookup(saved, current[i].0) {
                    Some(value) => value,
                    None => current[i].1,
                },
            ),
    )
}

/// The names of the spectrums of a new card.
pub open spec fn default_names() -> Seq<Seq<char>> {
    seq![
        "Spectrum1"@,
        "Spectrum2"@,
        "Spectrum3"@,
        "Spectrum4"@,
        "Spectrum5"@,
        "Spectrum6"@,
        "Spectrum7"@,
        "Spectrum8"@,
        "Spectrum9"@,
        "Spectrum10"@,
        "Spectrum11"@,
        "Spectrum12"@,
    ]
}

/// The spectrums of a new card: each default name, unknown.
pub open spec fn default_entries() -> Seq<(Seq<char>, Spectrum)> {
    Seq::new(default_names().len(), |i: int| (default_names()[i], Spectrum::Unknown))
}

/// No two entries share a name.
pub open spec fn names_distinct(list: Seq<(Seq<char>, Spectrum)>) -> bool {
    forall|i: int, j: int| 0 <= i < j < list.len() ==> list[i].0 != list[j].0
}

fn named(text: &str) -> (entry: (String, Spectrum))
    ensures
        entry_view(entry) == (text@, Spectrum::Unknown),
{
    (String::from_str(text), Spectrum::Unknown)
}

/// The spectrums a new card starts with: "Spectrum1" to "Spectrum12", all unknown.
pub fn default_spectrums() -> (list: Vec<(String, Spectrum)>)
    ensures
        entries(list@) == default_entries(),
{
    let mut list: Vec<(String, Spectrum)> = Vec::new();
    list.push(named("Spectrum1"));
    list.push(named("Spectrum2"));
    list.push(named("Spectrum3"));
    list.push(named("Spectrum4"));
    list.push(named("Spectrum5"));
    list.push(named("Spectrum6"));
    list.push(named("Spectrum7"));
    list.push(named("Spectrum8"));
    list.push(named("Spectrum9"));
    list.push(named("Spectrum10"));
    list.push(named("Spectrum11"));
    list.push(named("Spectrum12"));
    assert(entries(list@) =~= default_entries());
    list
}

/// The value that the first entry of `saved` named `key` holds, if there is one.
pub fn find_saved(saved: &Vec<(String, Spectrum)>, key: &String) -> (found: Option<Spectrum>)
    ensures
        found == lookup(entries(saved@), key@),
        forall|j: int|
            0 <= j < saved.len() && (#[trigger] saved@[j]).0@ == key@ && (forall|k: int|
                0 <= k < j ==> saved@[k].0@ != key@) ==> found == Some(saved@[j].1),
        (forall|j: int| 0 <= j < saved.len() ==> saved@[j].0@ != key@) ==> found is None,
{
    let ghost all = entries(saved@);
    let mut j: usize = 0;
    while j < saved.len()
        invariant
            j <= saved.len(),
            all == entries(saved@),
            forall|k: int| 0 <= k < j ==> saved@[k].0@ != key@,
        decreases saved.len() - j,
    {
        if saved[j].0 == *key {
            proof {
                assert forall|k: int| 0 <= k < j implies all[k].0 != key@ by {
                    assert(all[k] == entry_view(saved@[k]));
                }
                assert(all[j as int] == entry_view(saved@[j as int]));
                lemma_lookup_first(all, key@, j as int);
                assert forall|m: int|
                    0 <= m < saved.len() && (#[trigger] saved@[m]).0@ == key@ && (forall|k: int|
                        0 <= k < m ==> saved@[k].0@ != key@) implies Some(saved@[j as int].1)
                    == Some(saved@[m].1) by {
                    if m < j {
                    } else if m > j {
                        assert(saved@[j as int].0@ != key@);
                    }
                }
            }
            return Some(saved[j].1);
        }
        j += 1;
    }
    proof {
        assert forall|k: int| 0 <= k < all.len() implies all[k].0 != key@ by {
            assert(all[k] == entry_view(saved@[k]));
        }
        lemma_lookup_absent(all, key@);
    }
    None
}

/// `current` with each value replaced by the one that `saved` holds under the
/// same name: the list keeps the names of `current`, in its order, and
/// entries of `saved` with other names are left out.
pub fn merge_spectrums(current: &Vec<(String, Spectrum)>, saved: &Vec<(String, Spectrum)>) -> (merged: Vec<(String, Spectrum)>)
    ensures
        entries(merged@) == merge_spec(entries(current@), entries(saved@)),
        merged.len() == current.len(),
        forall|i: int| 0 <= i < merged.len() ==> (#[trigger] merged@[i]).0@ == current@[i].0@,
        forall|i: int, j: int|
            #![trigger merged@[i], saved@[j]]
            0 <= i < current.len() && 0 <= j < saved.len() && saved@[j].0@ == current@[i].0@ && (
            forall|k: int| 0 <= k < j ==> saved@[k].0@ != current@[i].0@) ==> merged@[i].1
                == saved@[j].1,
        forall|i: int|
            0 <= i < current.len() && (forall|j: int|
                0 <= j < saved.len() ==> saved@[j].0@ != current@[i].0@) ==> (#[trigger] merged@[i]).1
                == current@[i].1,
{
    let ghost want = merge_spec(entries(current@), entries(saved@));
    let mut merged: Vec<(String, Spectrum)> = Vec::new();
    let mut i: usize = 0;
    while i < current.len()
        invariant
            i <= current.len(),
            want == merge_spec(entries(current@), entries(saved@)),
            merged.len() == i,
            forall|k: int| 0 <= k < i ==> #[trigger] entry_view(merged@[k]) == want[k],
        decreases current.len() - i,
    {
        let key = current[i].0.clone();
        let value = match find_saved(saved, &current[i].0) {
            Some(found) => found,
            None => current[i].1,
        };
        merged.push((key, value));
        assert(entry_view(merged@[i as int]) == want[i as int]);
        i += 1;
    }
    assert(entries(merged@) =~= want);
    proof {
        law_merge_takes_first_saved(entries(current@), entries(saved@));
        assert forall|i: int| 0 <= i < merged.len() implies (#[trigger] merged@[i]).0@
            == current@[i].0@ by {
            assert(entries(current@)[i] == entry_view(current@[i]));
            assert(want[i] == entry_view(merged@[i]));
        }
        assert forall|i: int, j: int|
            #![trigger merged@[i], saved@[j]]
            0 <= i < current.len() && 0 <= j < saved.len() && saved@[j].0@ == current@[i].0@ && (
            forall|k: int| 0 <= k < j ==> saved@[k].0@ != current@[i].0@) implies merged@[i].1
            == saved@[j].1 by {
            let all = entries(saved@);
            assert(all[j] == entry_view(saved@[j]));
            assert forall|k: int| 0 <= k < j implies all[k].0 != entries(current@)[i].0 by {
                assert(all[k] == entry_view(saved@[k]));
            }
            assert(entries(current@)[i] == entry_view(current@[i]));
            assert(want[i] == entry_view(merged@[i]));
        }
        assert forall|i: int|
            0 <= i < current.len() && (forall|j: int|
                0 <= j < saved.len() ==> saved@[j].0@ != current@[i].0@) implies (
        #[trigger] merged@[i]).1 == current@[i].1 by {
            let all = entries(saved@);
            assert forall|j: int| 0 <= j < all.len() implies all[j].0 != entries(current@)[i].0 by {
                assert(all[j] == entry_view(saved@[j]));
            }
            assert(entries(current@)[i] == entry_view(current@[i]));
            assert(want[i] == entry_view(merged@[i]));
        }
    }
    merged
}

/// The spectrums of a card loaded from `saved`: the default list, each value
/// taken from `saved` where it holds an entry of that name.
pub fn restore_spectrums(saved: &Vec<(String, Spectrum)>) -> (restored: Vec<(String, Spectrum)>)
    ensures
        entries(restored@) == merge_spec(default_entries(), entries(saved@)),
        restored.len() == default_names().len(),
        forall|i: int|
            0 <= i < restored.len() ==> (#[trigger] restored@[i]).0@ == default_names()[i],
        forall|i: int, j: int|
            #![trigger restored@[i], saved@[j]]
            0 <= i < default_names().len() && 0 <= j < saved.len() && saved@[j].0@
                == default_names()[i] && (forall|k: int|
                0 <= k < j ==> saved@[k].0@ != default_names()[i]) ==> restored@[i].1
                == saved@[j].1,
        forall|i: int|
            0 <= i < default_names().len() && (forall|j: int|
                0 <= j < saved.len() ==> saved@[j].0@ != default_names()[i]) ==> (
            #[trigger] restored@[i]).1 == Spectrum::Unknown,
{
    let current = default_spectrums();
    assert(entries(current@).len() == current@.len());
    assert forall|i: int| 0 <= i < current.len() implies current@[i].0@ == default_names()[i]
        && current@[i].1 == Spectrum::Unknown by {
        assert(entries(current@)[i] == entry_view(current@[i]));
        assert(entries(current@)[i] == default_entries()[i]);
    }
    merge_spectrums(&current, saved)
}

/// A card: the person's name and pronouns, their spectrums, and the
/// background image that the exported card is printed on, with its file name.
pub struct App {
    pub spectrums: Vec<(String, Spectrum)>,
    pub name: String,
    pub pronouns: String,
    pub background_image: Option<Vec<u8>>,
    pub background_image_name: Option<String>,
}

impl App {
    /// The card has the default spectrums, an empty name and pronouns, and no background.
    pub open spec fn is_fresh(&self) -> bool {
        &&& entries(self.spectrums@) == default_entries()
        &&& self.name@ == Seq::<char>::empty()
        &&& self.pronouns@ == Seq::<char>::empty()
        &&& self.background_image is None
        &&& self.background_image_name is None
    }

    /// The card to start with: the one read back from the stored spectrums,
    /// name and pronouns where storage holds a card, else a fresh card. Either
    /// way its spectrums carry the default names, in order.
    pub fn new(stored: Option<(Vec<(String, Spectrum)>, String, String)>) -> (app: App)
        ensures
            match stored {
                Some((saved, name, pronouns)) => {
                    &&& entries(app.spectrums@) == merge_spec(default_entries(), entries(saved@))
                    &&& app.name == name
                    &&& app.pronouns == pronouns
                    &&& app.background_image is None
                    &&& app.background_image_name is None
                },
                None => app.is_fresh(),
            },
            app.spectrums.len() == default_names().len(),
            forall|i: int|
                0 <= i < app.spectrums.len() ==> (#[trigger] app.spectrums@[i]).0@
                    == default_names()[i],
    {
        let app = match stored {
            Some((saved, name, pronouns)) => App::restore(&saved, name, pronouns),
            None => App::default(),
        };
        assert(entries(app.spectrums@).len() == app.spectrums@.len());
        assert(entries(app.spectrums@).len() == default_entries().len());
        assert forall|i: int| 0 <= i < app.spectrums.len() implies (
        #[trigger] app.spectrums@[i]).0@ == default_names()[i] by {
            assert(entries(app.spectrums@)[i] == entry_view(app.spectrums@[i]));
            assert(entries(app.spectrums@)[i].0 == default_entries()[i].0);
        }
        app
    }

    /// The card read back from storage: its name and pronouns as stored, its
    /// spectrums the default list with each value taken from the stored list
    /// where that holds an entry of the same name, and no background (the
    /// background is never stored).
    pub fn restore(saved_spectrums: &Vec<(String, Spectrum)>, name: String, pronouns: String) -> (app: App)
        ensures
            entries(app.spectrums@) == merge_spec(default_entries(), entries(saved_spectrums@)),
            app.name == name,
            app.pronouns == pronouns,
            app.background_image is None,
            app.background_image_name is None,
    {
        App {
            spectrums: restore_spectrums(saved_spectrums),
            name,
            pronouns,
            background_image: None,
            background_image_name: None,
        }
    }

    /// The value of spectrum `index` is changed to `value`: its name, the
    /// other spectrums, their order, and the rest of the card stay as they were.
    pub fn set_value(&mut self, index: usize, value: Spectrum)
        requires
            index < old(self).spectrums.len(),
        ensures
            final(self).spectrums.len() == old(self).spectrums.len(),
            final(self).spectrums@[index as int].0 == old(self).spectrums@[index as int].0,
            final(self).spectrums@[index as int].1 == value,
            forall|j: int|
                0 <= j < old(self).spectrums.len() && j != index ==> #[trigger] final(self).spectrums@[j]
                    == old(self).spectrums@[j],
            entries(final(self).spectrums@) == entries(old(self).spectrums@).update(
                index as int,
                (old(self).spectrums@[index as int].0@, value),
            ),
            final(self).name == old(self).name,
            final(self).pronouns == old(self).pronouns,
            final(self).background_image == old(self).background_image,
            final(self).background_image_name == old(self).background_image_name,
    {
        let name = self.spectrums[index].0.clone();
        self.spectrums.set(index, (name, value));
        assert(entries(self.spectrums@) =~= entries(old(self).spectrums@).update(
            index as int,
            (old(self).spectrums@[index as int].0@, value),
        ));
    }

    /// A background image arrived: it and its file name replace the current ones.
    pub fn set_background(&mut self, name: String, bytes: Vec<u8>)
        ensures
            final(self).background_image == Some(bytes),
            final(self).background_image_name == Some(name),
            final(self).spectrums == old(self).spectrums,
            final(self).name == old(self).name,
            final(self).pronouns == old(self).pronouns,
    {
        self.background_image = Some(bytes);
        self.background_image_name = Some(name);
    }

    /// The background is cleared: neither the image nor its name remains.
    pub fn clear_background(&mut self)
        ensures
            final(self).background_image is None,
            final(self).background_image_name is None,
            final(self).spectrums == old(self).spectrums,
            final(self).name == old(self).name,
            final(self).pronouns == old(self).pronouns,
    {
        self.background_image_name = None;
        self.background_image = None;
    }
}

impl Default for App {
    /// A fresh card.
    fn default() -> (app: App)
        ensures
            app.is_fresh(),
    {
        App {
            spectrums: default_spectrums(),
            name: String::new(),
            pronouns: String::new(),
            background_image: None,
            background_image_name: None,
        }
    }
}

proof fn lemma_lookup_first(list: Seq<(Seq<char>, Spectrum)>, key: Seq<char>, i: int)
    requires
        0 <= i < list.len(),
        list[i].0 == key,
        forall|j: int| 0 <= j < i ==> list[j].0 != key,
    ensures
        lookup(list, key) == Some(list[i].1),
    decreases i,
{
    if i > 0 {
        lemma_lookup_first(list.drop_first(), key, i - 1);
    }
}

/// With no entry named `key`, looking it up finds nothing.
proof fn lemma_lookup_absent(list: Seq<(Seq<char>, Spectrum)>, key: Seq<char>)
    requires
        forall|j: int| 0 <= j < list.len() ==> list[j].0 != key,
    ensures
        lookup(list, key) is None,
    decreases list.len(),
{
    if list.len() > 0 {
        lemma_lookup_absent(list.drop_first(), key);
    }
}

/// Looking a name up finds the value of the first entry with that name, and
/// nothing where no entry has it.
pub proof fn law_lookup_first_entry(list: Seq<(Seq<char>, Spectrum)>, key: Seq<char>)
    ensures
        forall|j: int|
            0 <= j < list.len() && (#[trigger] list[j]).0 == key && (forall|k: int|
                0 <= k < j ==> list[k].0 != key) ==> lookup(list, key) == Some(list[j].1),
        (forall|j: int| 0 <= j < list.len() ==> list[j].0 != key) ==> lookup(list, key) is None,
{
    assert forall|j: int|
        0 <= j < list.len() && (#[trigger] list[j]).0 == key && (forall|k: int|
            0 <= k < j ==> list[k].0 != key) implies lookup(list, key) == Some(list[j].1) by {
        lemma_lookup_first(list, key, j);
    }
    if forall|j: int| 0 <= j < list.len() ==> list[j].0 != key {
        lemma_lookup_absent(list, key);
    }
}

/// Merging keeps every name of `current` in its place; where `saved` holds
/// entries of that name, the value is exactly that of the first of them,
/// whatever it is; where it holds none, the value of `current` stays.
pub proof fn law_merge_takes_first_saved(
    current: Seq<(Seq<char>, Spectrum)>,
    saved: Seq<(Seq<char>, Spectrum)>,
)
    ensures
        merge_spec(current, saved).len() == current.len(),
        forall|i: int|
            0 <= i < current.len() ==> (#[trigger] merge_spec(current, saved)[i]).0 == current[i].0,
        forall|i: int, j: int|
            #![trigger merge_spec(current, saved)[i], saved[j]]
            0 <= i < current.len() && 0 <= j < saved.len() && saved[j].0 == current[i].0 && (
            forall|k: int| 0 <= k < j ==> saved[k].0 != current[i].0) ==> merge_spec(
                current,
                saved,
            )[i].1 == saved[j].1,
        forall|i: int|
            0 <= i < current.len() && (forall|j: int|
                0 <= j < saved.len() ==> saved[j].0 != current[i].0) ==> (#[trigger] merge_spec(
                current,
                saved,
            )[i]).1 == current[i].1,
{
    assert forall|i: int, j: int|
        #![trigger merge_spec(current, saved)[i], saved[j]]
        0 <= i < current.len() && 0 <= j < saved.len() && saved[j].0 == current[i].0 && (forall|
            k: int,
        | 0 <= k < j ==> saved[k].0 != current[i].0) implies merge_spec(current, saved)[i].1
        == saved[j].1 by {
        lemma_lookup_first(saved, current[i].0, j);
    }
    assert forall|i: int|
        0 <= i < current.len() && (forall|j: int|
            0 <= j < saved.len() ==> saved[j].0 != current[i].0) implies (#[trigger] merge_spec(
        current,
        saved,
    )[i]).1 == current[i].1 by {
        lemma_lookup_absent(saved, current[i].0);
    }
}

/// With nothing saved, every spectrum keeps its value.
pub proof fn law_nothing_saved(current: Seq<(Seq<char>, Spectrum)>)
    ensures
        merge_spec(current, Seq::empty()) == current,
{
    assert(merge_spec(current, Seq::empty()) =~= current);
}

/// Where names are distinct, loading a card that was itself saved from a
/// loaded card changes nothing: saving and loading again gives the same spectrums.
pub proof fn law_reload_is_stable(
    current: Seq<(Seq<char>, Spectrum)>,
    saved: Seq<(Seq<char>, Spectrum)>,
)
    requires
        names_distinct(current),
    ensures
        merge_spec(current, merge_spec(current, saved)) == merge_spec(current, saved),
{
    let once = merge_spec(current, saved);
    assert forall|i: int| 0 <= i < current.len() implies lookup(once, current[i].0) == Some(
        once[i].1,
    ) by {
        assert forall|j: int| 0 <= j < i implies once[j].0 != current[i].0 by {
            assert(current[j].0 != current[i].0);
        }
        lemma_lookup_first(once, current[i].0, i);
    }
    assert(merge_spec(current, once) =~= once);
}

/// The spectrums of a new card have distinct names.
pub proof fn law_default_names_distinct()
    ensures
        names_distinct(default_entries()),
{
    reveal_strlit("Spectrum1");
    reveal_strlit("Spectrum2");
    reveal_strlit("Spectrum3");
    reveal_strlit("Spectrum4");
    reveal_strlit("Spectrum5");
    reveal_strlit("Spectrum6");
    reveal_strlit("Spectrum7");
    reveal_strlit("Spectrum8");
    reveal_strlit("Spectrum9");
    reveal_strlit("Spectrum10");
    reveal_strlit("Spectrum11");
    reveal_strlit("Spectrum12");
    let names = default_names();
    assert forall|i: int, j: int| 0 <= i < j < names.len() implies names[i] != names[j] by {
        if names[i].len() == names[j].len() {
            let k = names[i].len() - 1;
            assert(names[i][k] != names[j][k]);
        }
    }
}

/// A card restored from storage and saved again restores to the same spectrums.
pub proof fn law_restore_round_trip(saved: Seq<(Seq<char>, Spectrum)>)
    ensures
        merge_spec(default_entries(), merge_spec(default_entries(), saved)) == merge_spec(
            default_entries(),
            saved,
        ),
{
    law_default_names_distinct();
    law_reload_is_stable(default_entries(), saved);
}

} // verus!
