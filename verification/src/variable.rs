//! The catalog of discovered variables and the selection made from it.

use vstd::prelude::*;

verus! {

/// What a `VariableInfo` stands for: a global or static variable of the
/// target, by its full dotted name, its type's name, its address and its size
/// in bytes.
pub struct VariableSpec {
    pub name: Seq<char>,
    pub types: Seq<char>,
    pub address: u64,
    pub size: usize,
}

/// A discovered global or static variable of the target.
#[derive(Clone, Debug, PartialEq, Eq)]
pub struct VariableInfo {
    pub name: String,
    pub types: String,
    pub address: u64,
    pub size: usize,
}

impl View for VariableInfo {
    type V = VariableSpec;

    open spec fn view(&self) -> VariableSpec {
        VariableSpec {
            name: self.name@,
            types: self.types@,
            address: self.address,
            size: self.size,
        }
    }
}

impl VariableInfo {
    /// A copy of this descriptor.
    pub fn duplicate(&self) -> (r: VariableInfo)
        ensures
            r@ == self@,
    {
        VariableInfo {
            name: self.name.clone(),
            types: self.types.clone(),
            address: self.address,
            size: self.size,
        }
    }

    /// Whether both descriptors name the same variable with the same type,
    /// address and size.
    pub fn same_as(&self, other: &VariableInfo) -> (r: bool)
        ensures
            r == (self@ == other@),
    {
        self.name == other.name && self.types == other.types && self.address == other.address
            && self.size == other.size
    }
}

/// What a `SelectableVariableInfo` stands for: a variable and whether it is
/// selected for watching.
pub struct SelectableSpec {
    pub variable: VariableSpec,
    pub is_selected: bool,
}

/// A variable of the catalog together with its selection mark.
#[derive(Default, Clone, Debug)]
pub struct SelectableVariableInfo {
    pub name: String,
    pub types: String,
    pub address: u64,
    pub size: usize,
    pub is_selected: bool,
}

impl View for SelectableVariableInfo {
    type V = SelectableSpec;

    open spec fn view(&self) -> SelectableSpec {
        SelectableSpec {
            variable: VariableSpec {
                name: self.name@,
                types: self.types@,
                address: self.address,
                size: self.size,
            },
            is_selected: self.is_selected,
        }
    }
}

/// The variables that a catalog holds, in order.
pub open spec fn catalog_view(list: Seq<VariableInfo>) -> Seq<VariableSpec> {
    list.map_values(|v: VariableInfo| v@)
}

/// The entries that a selection list holds, in order.
pub open spec fn selection_view(list: Seq<SelectableVariableInfo>) -> Seq<SelectableSpec> {
    list.map_values(|v: SelectableVariableInfo| v@)
}

/// The selected variables of `list`, in the order of the list.
pub open spec fn selected_of(list: Seq<SelectableSpec>) -> Seq<VariableSpec>
    decreases list.len(),
{
    if list.len() == 0 {
        Seq::empty()
    } else if list.last().is_selected {
        selected_of(list.drop_last()).push(list.last().variable)
    } else {
        selected_of(list.drop_last())
    }
}

/// Some selected entry of `list` bears the name `name`.
pub open spec fn is_selected_name(list: Seq<SelectableSpec>, name: Seq<char>) -> bool {
    exists|j: int| 0 <= j < list.len() && (#[trigger] list[j]).is_selected && list[j].variable.name == name
}

/// The selection list for the catalog `src` that keeps the marks of
/// `previous`: an entry is selected exactly when `previous` has a selected
/// entry of the same name.
pub open spec fn refreshed(src: Seq<VariableSpec>, previous: Seq<SelectableSpec>) -> Seq<
    SelectableSpec,
> {
    Seq::new(
        src.len(),
        |i: int|
            SelectableSpec {
                variable: src[i],
                is_selected: is_selected_name(previous, src[i].name),
            },
    )
}

/// Every variable of `selected_of(list)` is the variable of a selected entry
/// of `list`, and every selected entry contributes its variable.
pub proof fn lemma_selected_of_members(list: Seq<SelectableSpec>)
    ensures
        forall|v: VariableSpec|
            selected_of(list).contains(v) <==> exists|j: int|
                0 <= j < list.len() && (#[trigger] list[j]).is_selected && list[j].variable == v,
        selected_of(list).len() <= list.len(),
    decreases list.len(),
{
    if list.len() > 0 {
        let head = list.drop_last();
        lemma_selected_of_members(head);
        assert forall|v: VariableSpec|
            selected_of(list).contains(v) <==> exists|j: int|
                0 <= j < list.len() && (#[trigger] list[j]).is_selected && list[j].variable
                    == v by {
            if selected_of(list).contains(v) {
                if !(list.last().is_selected && list.last().variable == v) {
                    assert(selected_of(head).contains(v));
                }
            }
            if exists|j: int|
                0 <= j < list.len() && (#[trigger] list[j]).is_selected && list[j].variable == v {
                let j = choose|j: int|
                    0 <= j < list.len() && (#[trigger] list[j]).is_selected && list[j].variable
                        == v;
                if j == list.len() - 1 {
                    let s = selected_of(list);
                    assert(s[s.len() - 1] == v);
                } else {
                    assert(head[j] == list[j]);
                    assert(selected_of(head).contains(v));
                    let k = choose|k: int|
                        0 <= k < selected_of(head).len() && selected_of(head)[k] == v;
                    assert(selected_of(list)[k] == v);
                }
            }
        }
    }
}

/// A copy of a catalog.
pub fn copy_catalog(list: &Vec<VariableInfo>) -> (r: Vec<VariableInfo>)
    ensures
        catalog_view(r@) == catalog_view(list@),
{
    let mut copy: Vec<VariableInfo> = Vec::new();
    let mut i: usize = 0;
    while i < list.len()
        invariant
            i <= list.len(),
            copy.len() == i,
            forall|k: int| 0 <= k < i ==> (#[trigger] copy@[k])@ == list@[k]@,
        decreases list.len() - i,
    {
        copy.push(list[i].duplicate());
        i = i + 1;
    }
    copy
}

impl SelectableVariableInfo {
    /// A selection list for the catalog `list`, with nothing selected.
    pub fn generate(list: &Vec<VariableInfo>) -> (r: Vec<SelectableVariableInfo>)
        ensures
            selection_view(r@) == refreshed(catalog_view(list@), Seq::empty()),
    {
        let mut new_list: Vec<SelectableVariableInfo> = Vec::new();
        let mut i: usize = 0;
        while i < list.len()
            invariant
                i <= list.len(),
                new_list.len() == i,
                forall|k: int|
                    0 <= k < i ==> (#[trigger] new_list@[k])@ == (SelectableSpec {
                        variable: list@[k]@,
                        is_selected: false,
                    }),
            decreases list.len() - i,
        {
            let vals = &list[i];
            new_list.push(
                SelectableVariableInfo {
                    name: vals.name.clone(),
                    types: vals.types.clone(),
                    address: vals.address,
                    size: vals.size,
                    is_selected: false,
                },
            );
            i = i + 1;
        }
        new_list
    }

    /// Replaces the selection list `dist` by one for the catalog `src`. An
    /// entry of the new list is selected exactly when `dist` held a selected
    /// entry of the same name.
    pub fn fetch(src: &Vec<VariableInfo>, dist: &mut Vec<SelectableVariableInfo>)
        ensures
            selection_view(final(dist)@) == refreshed(
                catalog_view(src@),
                selection_view(old(dist)@),
            ),
    {
        let mut new_list = Self::generate(src);
        let ghost previous = selection_view(dist@);
        let mut i: usize = 0;
        assert(selection_view(new_list@).len() == src.len());
        assert forall|k: int| 0 <= k < new_list.len() implies (#[trigger] new_list@[k])@ == (
        SelectableSpec { variable: src@[k]@, is_selected: false }) by {
            assert(selection_view(new_list@)[k] == new_list@[k]@);
        }
        while i < new_list.len()
            invariant
                i <= new_list.len(),
                new_list.len() == src.len(),
                previous == selection_view(dist@),
                forall|k: int|
                    0 <= k < i ==> (#[trigger] new_list@[k])@ == refreshed(
                        catalog_view(src@),
                        previous,
                    )[k],
                forall|k: int|
                    i <= k < new_list.len() ==> (#[trigger] new_list@[k])@ == (SelectableSpec {
                        variable: src@[k]@,
                        is_selected: false,
                    }),
            decreases new_list.len() - i,
        {
            let mut found: bool = false;
            let mut j: usize = 0;
            while j < dist.len() && !found
                invariant
                    j <= dist.len(),
                    i < new_list.len(),
                    previous == selection_view(dist@),
                    found ==> is_selected_name(previous, new_list@[i as int].name@),
                    !found ==> forall|m: int|
                        0 <= m < j ==> !((#[trigger] previous[m]).is_selected
                            && previous[m].variable.name == new_list@[i as int].name@),
                decreases dist.len() - j, if found { 0int } else { 1int },
            {
                if dist[j].is_selected && dist[j].name == new_list[i].name {
                    assert(previous[j as int].is_selected);
                    found = true;
                } else {
                    j = j + 1;
                }
            }
            if found {
                let mut item = new_list[i].clone_entry();
                item.is_selected = true;
                new_list.set(i, item);
            }
            i = i + 1;
        }
        *dist = new_list;
    }

    /// The selected variables of `list`, in the order of the list.
    pub fn pick_selected(list: &Vec<SelectableVariableInfo>) -> (r: Vec<VariableInfo>)
        ensures
            catalog_view(r@) == selected_of(selection_view(list@)),
    {
        let mut new_list: Vec<VariableInfo> = Vec::new();
        let mut i: usize = 0;
        let ghost all = selection_view(list@);
        while i < list.len()
            invariant
                i <= list.len(),
                all == selection_view(list@),
                catalog_view(new_list@) == selected_of(all.take(i as int)),
            decreases list.len() - i,
        {
            let val = &list[i];
            proof {
                assert(all.take(i + 1).drop_last() == all.take(i as int));
            }
            if val.is_selected {
                let picked = VariableInfo {
                    name: val.name.clone(),
                    address: val.address,
                    types: val.types.clone(),
                    size: val.size,
                };
                new_list.push(picked);
            }
            i = i + 1;
        }
        assert(all.take(list.len() as int) == all);
        new_list
    }

    /// A copy of this entry.
    pub fn clone_entry(&self) -> (r: SelectableVariableInfo)
        ensures
            r@ == self@,
    {
        SelectableVariableInfo {
            name: self.name.clone(),
            types: self.types.clone(),
            address: self.address,
            size: self.size,
            is_selected: self.is_selected,
        }
    }
}

/// `list` with every entry marked as `mark` says.
pub open spec fn marked(list: Seq<SelectableSpec>, mark: bool) -> Seq<SelectableSpec> {
    Seq::new(list.len(), |i: int| SelectableSpec { variable: list[i].variable, is_selected: mark })
}

/// The selection list from which the watch list is picked.
#[derive(Default, Clone, Debug)]
pub struct WatchSymbolSelectTab {
    pub watch_list: Vec<SelectableVariableInfo>,
}

impl WatchSymbolSelectTab {
    /// Marks every entry alike.
    fn mark_all(&mut self, mark: bool)
        ensures
            selection_view(final(self).watch_list@) == marked(
                selection_view(old(self).watch_list@),
                mark,
            ),
    {
        let ghost before = selection_view(self.watch_list@);
        let mut i: usize = 0;
        while i < self.watch_list.len()
            invariant
                i <= self.watch_list.len(),
                self.watch_list.len() == before.len(),
                forall|k: int|
                    0 <= k < i ==> (#[trigger] self.watch_list@[k])@ == marked(before, mark)[k],
                forall|k: int|
                    i <= k < self.watch_list.len() ==> (#[trigger] self.watch_list@[k])@
                        == before[k],
            decreases self.watch_list.len() - i,
        {
            let mut item = self.watch_list[i].clone_entry();
            item.is_selected = mark;
            self.watch_list.set(i, item);
            i = i + 1;
        }
    }

    /// Selects every variable.
    pub fn select_all(&mut self)
        ensures
            selection_view(final(self).watch_list@) == marked(
                selection_view(old(self).watch_list@),
                true,
            ),
    {
        self.mark_all(true);
    }

    /// Selects no variable.
    pub fn deselect_all(&mut self)
        ensures
            selection_view(final(self).watch_list@) == marked(
                selection_view(old(self).watch_list@),
                false,
            ),
    {
        self.mark_all(false);
    }
}

} // verus!
