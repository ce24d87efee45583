use vstd::prelude::*;
use vstd::arithmetic::div_mod::{lemma_fundamental_div_mod, lemma_fundamental_div_mod_converse};
use crate::error::EditorError;

verus! {

/// One icon: its name, its image as the asset source supplied it, and a slot
/// in which the presentation layer may keep what it rendered from the image.
/// The registry reads neither the image nor the slot.
pub struct IconAsset<I, H> {
    pub name: String,
    pub image: I,
    pub cache: Option<H>,
}

/// No name occurs twice.
pub open spec fn names_distinct(names: Seq<Seq<char>>) -> bool {
    forall|i: int, j: int| 0 <= i < j < names.len() ==> names[i] != names[j]
}

/// An index is chosen exactly when there is something to choose from, and it
/// points at one of the `len` assets.
pub open spec fn valid_choice(choice: Option<nat>, len: nat) -> bool {
    match choice {
        Some(i) => i < len,
        None => len == 0,
    }
}

/// The index that lies `delta` steps after `current` on a ring of `len` places.
pub open spec fn cycled(current: nat, delta: int, len: nat) -> nat {
    ((current + delta) % (len as int)) as nat
}

/// What becomes of a choice when it moves by `delta` among `len` assets.
pub open spec fn cycled_choice(choice: Option<nat>, delta: int, len: nat) -> Option<nat> {
    match choice {
        Some(i) => Some(cycled(i, delta, len)),
        None => None,
    }
}

/// The choice right after loading `len` assets: the first, if there is one.
pub open spec fn first_choice(len: nat) -> Option<nat> {
    if len > 0 {
        Some(0nat)
    } else {
        None
    }
}

/// The mathematical value of a registry.
pub struct RegistryModel<I, H> {
    /// The assets in load order.
    pub assets: Seq<IconAsset<I, H>>,
    /// The index of the icon that paints.
    pub selected: Option<nat>,
    /// The index of the icon shown for unset cells.
    pub default_icon: Option<nat>,
}

impl<I, H> RegistryModel<I, H> {
    /// The names of the assets in load order.
    pub open spec fn names(self) -> Seq<Seq<char>> {
        self.assets.map_values(|a: IconAsset<I, H>| a.name@)
    }

    /// No two assets carry the same name.
    pub open spec fn names_unique(self) -> bool {
        forall|i: int, j: int|
            0 <= i < j < self.assets.len() ==> (#[trigger] self.assets[i]).name@ != (
            #[trigger] self.assets[j]).name@
    }

    /// Names are unique, and both choices are valid.
    pub open spec fn wf(self) -> bool {
        &&& self.names_unique()
        &&& valid_choice(self.selected, self.assets.len())
        &&& valid_choice(self.default_icon, self.assets.len())
    }

    /// Whether some asset carries `name`.
    pub open spec fn has_name(self, name: Seq<char>) -> bool {
        exists|i: int| 0 <= i < self.assets.len() && #[trigger] self.assets[i].name@ == name
    }

    /// The name that a choice points at.
    pub open spec fn name_at(self, choice: Option<nat>) -> Option<Seq<char>> {
        match choice {
            Some(i) => Some(self.assets[i as int].name@),
            None => None,
        }
    }
}

/// One step forward from `current` leads to the next index, one step back
/// to the one before, and past either end to the other end.
pub proof fn law_cycle_wraps(current: nat, len: nat)
    requires
        current < len,
    ensures
        cycled(current, 1, len) == (current as int + 1) % (len as int),
        cycled(current, -1, len) == (current as int - 1 + len as int) % (len as int),
        cycled(current, 1, len) == if current + 1 == len { 0 } else { current as int + 1 },
        cycled(current, -1, len) == if current == 0 { len as int - 1 } else { current as int - 1 },
        cycled(current, 1, len) < len,
        cycled(current, -1, len) < len,
{
    let c = current as int;
    let n = len as int;
    if c + 1 == n {
        lemma_fundamental_div_mod_converse(c + 1, n, 1, 0);
    } else {
        lemma_fundamental_div_mod_converse(c + 1, n, 0, c + 1);
    }
    if c == 0 {
        lemma_fundamental_div_mod_converse(c - 1, n, -1, n - 1);
        lemma_fundamental_div_mod_converse(c - 1 + n, n, 0, n - 1);
    } else {
        lemma_fundamental_div_mod_converse(c - 1, n, 0, c - 1);
        lemma_fundamental_div_mod_converse(c - 1 + n, n, 1, c - 1);
    }
}

/// Wherever a choice stands, moving it by any number of steps leaves it on
/// one of the `len` places; moving by a multiple of `len` leaves it in place.
pub proof fn law_cycle_stays_valid(current: nat, delta: int, turns: int, len: nat)
    requires
        current < len,
    ensures
        cycled(current, delta, len) < len,
        cycled(current, turns * len, len) == current,
{
    vstd::arithmetic::div_mod::lemma_mod_bound(current + delta, len as int);
    lemma_fundamental_div_mod_converse(current + turns * len, len as int, turns, current as int);
}

/// Two moves in a row are one move by the sum of their steps.
pub proof fn law_cycle_composes(current: nat, first: int, second: int, len: nat)
    requires
        current < len,
    ensures
        cycled(cycled(current, first, len), second, len) == cycled(current, first + second, len),
{
    let n = len as int;
    let mid = (current + first) % n;
    let q = (current + first) / n;
    lemma_fundamental_div_mod(current + first, n);
    vstd::arithmetic::div_mod::lemma_mod_bound(current + first, n);
    let q2 = (mid + second) / n;
    let r2 = (mid + second) % n;
    lemma_fundamental_div_mod(mid + second, n);
    vstd::arithmetic::div_mod::lemma_mod_bound(mid + second, n);
    assert(current + first + second == (q + q2) * n + r2) by (nonlinear_arith)
        requires
            current + first == n * q + mid,
            mid + second == n * q2 + r2,
    ;
    lemma_fundamental_div_mod_converse(current + first + second, n, q + q2, r2);
}

/// In a registry without assets nothing is selected, and cycling changes
/// nothing.
pub proof fn law_cycle_empty<I, H>(registry: RegistryModel<I, H>, delta: int)
    requires
        registry.wf(),
        registry.assets.len() == 0,
    ensures
        registry.selected is None,
        registry.default_icon is None,
        cycled_choice(registry.selected, delta, registry.assets.len()) == registry.selected,
        cycled_choice(registry.default_icon, delta, registry.assets.len()) == registry.default_icon,
        registry.name_at(registry.selected) is None,
{
}

/// In a well-formed registry a name is carried by at most one asset.
pub proof fn law_name_is_key<I, H>(registry: RegistryModel<I, H>, i: int, j: int)
    requires
        registry.wf(),
        0 <= i < registry.assets.len(),
        0 <= j < registry.assets.len(),
        registry.assets[i].name@ == registry.assets[j].name@,
    ensures
        i == j,
{
}

/// The names of a list of named images, in order.
pub open spec fn pair_names<I>(pairs: Seq<(String, I)>) -> Seq<Seq<char>> {
    pairs.map_values(|p: (String, I)| p.0@)
}

/// The view of a borrowed name.
pub open spec fn str_model(name: Option<&str>) -> Option<Seq<char>> {
    match name {
        Some(n) => Some(n@),
        None => None,
    }
}

/// The index that lies `delta` steps after `current` on a ring of `len`
/// places: stepping past either end wraps around to the other.
pub fn cycle_index(current: usize, delta: i64, len: usize) -> (r: usize)
    requires
        current < len,
    ensures
        r == cycled(current as nat, delta as int, len as nat),
        r < len,
{
    let n: u64 = len as u64;
    let step: usize = if delta >= 0 {
        let d: u64 = (delta as u64) % n;
        proof {
            lemma_fundamental_div_mod(delta as int, len as int);
        }
        d as usize
    } else {
        let back: u64 = (-(delta + 1)) as u64;
        let m: u64 = back % n;
        proof {
            let q = (back as int) / (len as int);
            lemma_fundamental_div_mod(back as int, len as int);
            assert(delta as int == (-q - 1) * (len as int) + (len - 1 - m)) by (nonlinear_arith)
                requires
                    back as int == (len as int) * q + (m as int),
                    delta as int == -(back as int) - 1,
            ;
            lemma_fundamental_div_mod_converse(delta as int, len as int, -q - 1, len - 1 - m);
        }
        len - 1 - (m as usize)
    };
    assert(step as int == (delta as int) % (len as int));
    let ghost q = (delta as int) / (len as int);
    proof {
        lemma_fundamental_div_mod(delta as int, len as int);
    }
    if step >= len - current {
        let r: usize = step - (len - current);
        proof {
            assert(current + delta == (q + 1) * (len as int) + r) by (nonlinear_arith)
                requires
                    delta as int == (len as int) * q + (step as int),
                    r as int == step - (len - current),
            ;
            lemma_fundamental_div_mod_converse(current + delta, len as int, q + 1, r as int);
        }
        r
    } else {
        let r: usize = current + step;
        proof {
            assert(current + delta == q * (len as int) + r) by (nonlinear_arith)
                requires
                    delta as int == (len as int) * q + (step as int),
                    r as int == current + step,
            ;
            lemma_fundamental_div_mod_converse(current + delta, len as int, q, r as int);
        }
        r
    }
}

/// The icons that can be painted, in the order in which they were loaded,
/// with the one that paints and the one that stands for unset cells.
pub struct IconRegistry<I, H> {
    assets: Vec<IconAsset<I, H>>,
    selected: Option<usize>,
    default_icon: Option<usize>,
}

/// A stored index as a value of specifications.
pub open spec fn choice_model(choice: Option<usize>) -> Option<nat> {
    match choice {
        Some(i) => Some(i as nat),
        None => None,
    }
}

impl<I, H> View for IconRegistry<I, H> {
    type V = RegistryModel<I, H>;

    closed spec fn view(&self) -> RegistryModel<I, H> {
        RegistryModel {
            assets: self.assets@,
            selected: choice_model(self.selected),
            default_icon: choice_model(self.default_icon),
        }
    }
}

/// Whether no two of the named images share a name. [`IconRegistry::load`]
/// asks this of its input.
pub fn has_distinct_names<I>(assets: &Vec<(String, I)>) -> (r: bool)
    ensures
        r == names_distinct(pair_names(assets@)),
{
    let mut j: usize = 0;
    while j < assets.len()
        invariant
            j <= assets@.len(),
            forall|a: int, b: int|
                0 <= a < b < j ==> pair_names(assets@)[a] != pair_names(assets@)[b],
        decreases assets@.len() - j,
    {
        let mut i: usize = 0;
        while i < j
            invariant
                i <= j < assets@.len(),
                forall|a: int| 0 <= a < i ==> pair_names(assets@)[a] != pair_names(assets@)[j as int],
            decreases j - i,
        {
            if assets[i].0 == assets[j].0 {
                assert(pair_names(assets@)[i as int] == pair_names(assets@)[j as int]);
                return false;
            }
            i += 1;
        }
        j += 1;
    }
    true
}

impl<I, H> IconRegistry<I, H> {
    /// Every registry is well formed: see [`RegistryModel::wf`].
    #[verifier::type_invariant]
    spec fn inv(&self) -> bool {
        self@.wf()
    }

    /// The registry's invariant, which every registry of this type meets.
    pub open spec fn wf(&self) -> bool {
        self@.wf()
    }

    /// A registry without assets; nothing is selected.
    pub fn new() -> (r: Self)
        ensures
            r.wf(),
            r@.assets.len() == 0,
            r@.selected is None,
            r@.default_icon is None,
    {
        IconRegistry { assets: Vec::new(), selected: None, default_icon: None }
    }

    /// Replaces all assets by the given ones, in their order and with empty
    /// cache slots. Both choices fall on the first asset, or on none if there
    /// is no asset. What was selected before plays no part.
    pub fn load(&mut self, assets: Vec<(String, I)>)
        requires
            names_distinct(pair_names(assets@)),
        ensures
            final(self).wf(),
            final(self)@.names() == pair_names(assets@),
            forall|k: int|
                0 <= k < assets@.len() ==> (#[trigger] final(self)@.assets[k]).image == assets@[k].1
                    && final(self)@.assets[k].cache is None,
            final(self)@.selected == first_choice(assets@.len()),
            final(self)@.default_icon == first_choice(assets@.len()),
            assets@.len() > 0 ==> final(self)@.name_at(final(self)@.selected) == Some(assets@[0].0@),
    {
        let ghost input = assets@;
        let mut loaded: Vec<IconAsset<I, H>> = Vec::new();
        for pair in it: assets
            invariant
                it.seq() == input,
                loaded@.len() == it.index(),
                forall|k: int|
                    0 <= k < loaded@.len() ==> (#[trigger] loaded@[k]).name@ == input[k].0@
                        && loaded@[k].image == input[k].1 && loaded@[k].cache is None,
        {
            let (name, image) = pair;
            loaded.push(IconAsset { name, image, cache: None });
        }
        let first: Option<usize> = if loaded.len() > 0 {
            Some(0)
        } else {
            None
        };
        assert forall|i: int, j: int| 0 <= i < j < loaded@.len() implies (#[trigger] loaded@[i]).name@
            != (#[trigger] loaded@[j]).name@ by {
            assert(pair_names(input)[i] != pair_names(input)[j]);
        }
        *self = IconRegistry { assets: loaded, selected: first, default_icon: first };
        assert(self@.names() =~= pair_names(input));
    }

    /// The number of assets.
    pub fn len(&self) -> (r: usize)
        ensures
            self.wf(),
            r == self@.assets.len(),
    {
        proof {
            use_type_invariant(self);
        }
        self.assets.len()
    }

    /// The asset at `index` in load order, if there is one.
    pub fn asset(&self, index: usize) -> (r: Option<&IconAsset<I, H>>)
        ensures
            match r {
                Some(a) => index < self@.assets.len() && *a == self@.assets[index as int],
                None => index >= self@.assets.len(),
            },
    {
        if index < self.assets.len() {
            Some(&self.assets[index])
        } else {
            None
        }
    }

    /// The index of the asset that carries `name`.
    pub fn index_of(&self, name: &str) -> (r: Result<usize, EditorError>)
        ensures
            match r {
                Ok(i) => i < self@.assets.len() && self@.assets[i as int].name@ == name@,
                Err(e) => !self@.has_name(name@) && e == EditorError::NotFound,
            },
    {
        proof {
            use_type_invariant(&*self);
        }
        let wanted: String = name.to_owned();
        let mut i: usize = 0;
        while i < self.assets.len()
            invariant
                i <= self.assets@.len(),
                wanted@ == name@,
                forall|k: int| 0 <= k < i ==> (#[trigger] self.assets@[k]).name@ != name@,
            decreases self.assets@.len() - i,
        {
            if self.assets[i].name == wanted {
                return Ok(i);
            }
            i += 1;
        }
        Err(EditorError::NotFound)
    }

    /// Makes the asset that carries `name` the one that paints. Says whether
    /// there is such an asset; if not, nothing changes.
    pub fn select_by_name(&mut self, name: &str) -> (found: bool)
        ensures
            final(self).wf(),
            found == old(self)@.has_name(name@),
            final(self)@.assets == old(self)@.assets,
            final(self)@.default_icon == old(self)@.default_icon,
            found ==> final(self)@.name_at(final(self)@.selected) == Some(name@),
            !found ==> final(self)@.selected == old(self)@.selected,
    {
        proof {
            use_type_invariant(&*self);
        }
        match self.index_of(name) {
            Ok(i) => {
                self.selected = Some(i);
                true
            },
            Err(_) => false,
        }
    }

    /// Makes the asset that carries `name` the one shown for unset cells.
    /// Says whether there is such an asset; if not, nothing changes.
    pub fn set_default_by_name(&mut self, name: &str) -> (found: bool)
        ensures
            final(self).wf(),
            found == old(self)@.has_name(name@),
            final(self)@.assets == old(self)@.assets,
            final(self)@.selected == old(self)@.selected,
            found ==> final(self)@.name_at(final(self)@.default_icon) == Some(name@),
            !found ==> final(self)@.default_icon == old(self)@.default_icon,
    {
        proof {
            use_type_invariant(&*self);
        }
        match self.index_of(name) {
            Ok(i) => {
                self.default_icon = Some(i);
                true
            },
            Err(_) => false,
        }
    }

    /// Moves the selection by `delta` places in load order, wrapping around
    /// at both ends. Without assets nothing changes.
    pub fn cycle_selected(&mut self, delta: i64)
        ensures
            final(self).wf(),
            final(self)@.assets == old(self)@.assets,
            final(self)@.default_icon == old(self)@.default_icon,
            final(self)@.selected == cycled_choice(
                old(self)@.selected,
                delta as int,
                old(self)@.assets.len(),
            ),
    {
        proof {
            use_type_invariant(&*self);
        }
        match self.selected {
            Some(i) => {
                self.selected = Some(cycle_index(i, delta, self.assets.len()));
            },
            None => {},
        }
    }

    /// Moves the default icon by `delta` places in load order, wrapping
    /// around at both ends. Without assets nothing changes.
    pub fn cycle_default(&mut self, delta: i64)
        ensures
            final(self).wf(),
            final(self)@.assets == old(self)@.assets,
            final(self)@.selected == old(self)@.selected,
            final(self)@.default_icon == cycled_choice(
                old(self)@.default_icon,
                delta as int,
                old(self)@.assets.len(),
            ),
    {
        proof {
            use_type_invariant(&*self);
        }
        match self.default_icon {
            Some(i) => {
                self.default_icon = Some(cycle_index(i, delta, self.assets.len()));
            },
            None => {},
        }
    }

    /// The asset that carries `name`. A name that no asset carries is no
    /// failure of the registry: a grid may have been saved with other icons.
    pub fn resolve(&self, name: &str) -> (r: Option<&IconAsset<I, H>>)
        ensures
            match r {
                Some(a) => a.name@ == name@ && exists|i: int|
                    0 <= i < self@.assets.len() && #[trigger] self@.assets[i] == *a,
                None => !self@.has_name(name@),
            },
    {
        proof {
            use_type_invariant(&*self);
        }
        match self.index_of(name) {
            Ok(i) => Some(&self.assets[i]),
            Err(_) => None,
        }
    }

    /// The asset shown for unset cells; none without assets.
    pub fn default_asset(&self) -> (r: Option<&IconAsset<I, H>>)
        ensures
            match r {
                Some(a) => self@.default_icon is Some && *a == self@.assets[self@.default_icon->Some_0 as int],
                None => self@.default_icon is None,
            },
    {
        proof {
            use_type_invariant(&*self);
        }
        match self.default_icon {
            Some(i) => Some(&self.assets[i]),
            None => None,
        }
    }

    /// Puts `handle` into the cache slot of the asset at `index`, or empties
    /// the slot. Says whether there is such an asset; if not, nothing changes.
    pub fn set_cache(&mut self, index: usize, handle: Option<H>) -> (stored: bool)
        ensures
            final(self).wf(),
            stored == (index < old(self)@.assets.len()),
            final(self)@.selected == old(self)@.selected,
            final(self)@.default_icon == old(self)@.default_icon,
            final(self)@.assets.len() == old(self)@.assets.len(),
            forall|k: int|
                0 <= k < old(self)@.assets.len() ==> {
                    &&& (#[trigger] final(self)@.assets[k]).name == old(self)@.assets[k].name
                    &&& final(self)@.assets[k].image == old(self)@.assets[k].image
                    &&& k != index ==> final(self)@.assets[k].cache == old(self)@.assets[k].cache
                },
            stored ==> final(self)@.assets[index as int].cache == handle,
    {
        proof {
            use_type_invariant(&*self);
        }
        if index >= self.assets.len() {
            return false;
        }
        let mut taken = IconRegistry { assets: Vec::new(), selected: None, default_icon: None };
        std::mem::swap(self, &mut taken);
        let IconRegistry { assets, selected, default_icon } = taken;
        let mut assets = assets;
        assets[index].cache = handle;
        *self = IconRegistry { assets, selected, default_icon };
        true
    }

    /// The asset to draw for a cell: the one that carries the cell's name,
    /// and the default asset for an unset cell or for a name that no asset
    /// carries.
    pub fn icon_for(&self, cell: Option<&String>) -> (r: Option<&IconAsset<I, H>>)
        ensures
            match r {
                Some(a) => exists|i: int|
                    0 <= i < self@.assets.len() && #[trigger] self@.assets[i] == *a && (match cell {
                        Some(name) if self@.has_name(name@) => a.name@ == name@,
                        _ => self@.default_icon == Some(i as nat),
                    }),
                None => self@.assets.len() == 0,
            },
    {
        proof {
            use_type_invariant(&*self);
        }
        match cell {
            Some(name) => {
                match self.index_of(name.as_str()) {
                    Ok(i) => Some(&self.assets[i]),
                    Err(_) => self.default_asset(),
                }
            },
            None => self.default_asset(),
        }
    }

    /// The index of the icon that paints.
    pub fn selected(&self) -> (r: Option<usize>)
        ensures
            choice_model(r) == self@.selected,
    {
        self.selected
    }

    /// The index of the icon shown for unset cells.
    pub fn default_icon(&self) -> (r: Option<usize>)
        ensures
            choice_model(r) == self@.default_icon,
    {
        self.default_icon
    }

    /// The name of the icon that paints; none without assets.
    pub fn selected_name(&self) -> (r: Option<&str>)
        ensures
            str_model(r) == self@.name_at(self@.selected),
    {
        proof {
            use_type_invariant(&*self);
        }
        match self.selected {
            Some(i) => Some(self.assets[i].name.as_str()),
            None => None,
        }
    }

    /// The name of the icon shown for unset cells; none without assets.
    pub fn default_name(&self) -> (r: Option<&str>)
        ensures
            str_model(r) == self@.name_at(self@.default_icon),
    {
        proof {
            use_type_invariant(&*self);
        }
        match self.default_icon {
            Some(i) => Some(self.assets[i].name.as_str()),
            None => None,
        }
    }
}

} // verus!
