//! The debug-info strategy of the symbol scanner: from the types and
//! variables that an image's debug information declares to the catalog of
//! its scalar variables.
//!
//! The debug information is handed in as plain tables. Types refer to each
//! other by their position in a `TypeTable`.

use vstd::prelude::*;
use vstd::string::StringExecFns;
use crate::progress::ScanProgress;
use crate::text::{
    after_first, before_first, chars_of, dotted, has_prefix, is_literal, join_dotted,
    lemma_after_first_is_shorter, matches_at, remove_all, slice_of, string_of, strip_suffix,
    take_after_first, take_before_first, texts_of, upper_case, without_all, without_suffix,
};
use crate::variable::{catalog_view, copy_catalog, VariableInfo, VariableSpec};

verus! {

/// What a type modifier adds to the type it modifies.
#[derive(Clone, Copy, Debug, PartialEq, Eq, Structural)]
pub enum ModifierKind {
    Const,
    Volatile,
    /// A pointer, a reference or any other modifier.
    Other,
}

/// The kinds of types that the scan tells apart.
#[derive(Clone, Copy, Debug, PartialEq, Eq, Structural)]
pub enum TypeKind {
    /// A base type: a scalar with a name and a size.
    Base,
    /// A type alias. Its `target` is the aliased type.
    Def,
    /// A structure with members.
    Struct,
    /// A union with members.
    Union,
    /// A modified type. Its `target` is the type that is modified.
    Modifier(ModifierKind),
    /// Anything else: arrays, enumerations, functions and the like.
    Other,
}

/// A member of a structure or union.
#[derive(Debug)]
pub struct MemberInfo {
    pub name: Option<String>,
    /// The offset of the member from the start of its parent, in bits.
    pub bit_offset: u64,
    /// The position of the member's type in the table.
    pub ty: Option<usize>,
}

/// A type of the image.
#[derive(Debug)]
pub struct TypeInfo {
    pub kind: TypeKind,
    pub name: Option<String>,
    /// The size of a value of the type, in bytes.
    pub byte_size: Option<u64>,
    /// For an alias or a modifier, the position of the underlying type.
    pub target: Option<usize>,
    /// For a structure or a union, its members in declaration order.
    pub members: Vec<MemberInfo>,
}

/// The types of an image.
#[derive(Debug)]
pub struct TypeTable {
    pub types: Vec<TypeInfo>,
}

/// A variable as the debug information declares it.
#[derive(Debug)]
pub struct DebugVariable {
    pub name: Option<String>,
    pub address: Option<u64>,
    /// The position of the variable's type in the table.
    pub ty: Option<usize>,
}

/// The type at position `ty`, if there is one.
pub open spec fn type_at(table: TypeTable, ty: Option<usize>) -> Option<TypeInfo> {
    match ty {
        Some(i) if i < table.types@.len() => Some(table.types@[i as int]),
        _ => None,
    }
}

/// The members that a type has: those of a structure or a union.
pub open spec fn members_of(t: TypeInfo) -> Seq<MemberInfo> {
    if t.kind == TypeKind::Struct || t.kind == TypeKind::Union {
        t.members@
    } else {
        Seq::empty()
    }
}

/// The name of the base type that the type at `ty` is, directly or through
/// at most `fuel` aliases.
pub open spec fn base_type_name(table: TypeTable, ty: Option<usize>, fuel: nat) -> Option<
    Seq<char>,
>
    decreases fuel,
{
    match type_at(table, ty) {
        Some(t) => match t.kind {
            TypeKind::Base => match t.name {
                Some(name) => Some(name@),
                None => None,
            },
            TypeKind::Def => if fuel == 0 {
                None
            } else {
                base_type_name(table, t.target, (fuel - 1) as nat)
            },
            _ => None,
        },
        None => None,
    }
}

/// The catalog entry for a scalar, provided that its size is known and fits
/// the machine.
pub open spec fn leaf(name: Seq<char>, address: u64, types: Seq<char>, size: Option<u64>) -> Seq<
    VariableSpec,
> {
    match size {
        Some(bytes) if bytes <= usize::MAX => seq![
            VariableSpec { name, types, address, size: bytes as usize },
        ],
        _ => Seq::empty(),
    }
}

/// The catalog entries that one member gives rise to, descending at most
/// `fuel` levels below it.
///
/// A member of a base type is a scalar. So is a member whose type is a
/// `const` or `volatile` form of a base type; its type's name then starts
/// with that word. A member whose type is an alias of an alias is a scalar
/// of the base type behind them. A structure, and an alias of a structure
/// or union, stands for its members, whose addresses count from the
/// member's own. A member without a name, without a type, or beyond the end
/// of the address space gives rise to nothing.
pub open spec fn member_leaves(
    table: TypeTable,
    m: MemberInfo,
    parent_name: Seq<char>,
    parent_address: u64,
    fuel: nat,
) -> Seq<VariableSpec>
    decreases fuel, 0nat, 0nat,
{
    if m.name is None || type_at(table, m.ty) is None || parent_address + m.bit_offset / 8
        > u64::MAX {
        Seq::empty()
    } else {
        let name = dotted(parent_name, m.name->Some_0@);
        let address = (parent_address + m.bit_offset / 8) as u64;
        let t = type_at(table, m.ty)->Some_0;
        match t.kind {
            TypeKind::Base => match t.name {
                Some(types) => leaf(name, address, types@, t.byte_size),
                None => Seq::empty(),
            },
            TypeKind::Def => match type_at(table, t.target) {
                Some(target) => if members_of(target).len() == 0 {
                    if target.kind == TypeKind::Def {
                        match base_type_name(table, target.target, table.types@.len()) {
                            Some(types) => leaf(name, address, types, target.byte_size),
                            None => Seq::empty(),
                        }
                    } else {
                        Seq::empty()
                    }
                } else if fuel == 0 {
                    Seq::empty()
                } else {
                    members_leaves(table, members_of(target), name, address, (fuel - 1) as nat)
                },
                None => Seq::empty(),
            },
            TypeKind::Struct => if fuel == 0 {
                Seq::empty()
            } else {
                members_leaves(table, t.members@, name, address, (fuel - 1) as nat)
            },
            TypeKind::Modifier(kind) => match base_type_name(
                table,
                t.target,
                table.types@.len(),
            ) {
                Some(types) => match kind {
                    ModifierKind::Const => leaf(name, address, "const "@ + types, t.byte_size),
                    ModifierKind::Volatile => leaf(
                        name,
                        address,
                        "volatile "@ + types,
                        t.byte_size,
                    ),
                    ModifierKind::Other => Seq::empty(),
                },
                None => Seq::empty(),
            },
            _ => Seq::empty(),
        }
    }
}

/// The catalog entries of a list of members, in the order of the list.
pub open spec fn members_leaves(
    table: TypeTable,
    members: Seq<MemberInfo>,
    parent_name: Seq<char>,
    parent_address: u64,
    fuel: nat,
) -> Seq<VariableSpec>
    decreases fuel, 1nat, members.len(),
{
    if members.len() == 0 {
        Seq::empty()
    } else {
        members_leaves(table, members.drop_last(), parent_name, parent_address, fuel)
            + member_leaves(table, members.last(), parent_name, parent_address, fuel)
    }
}

/// The catalog entries that one variable gives rise to: itself for a
/// variable of base type, its members for a structure or an alias of one.
/// Nesting is followed as deep as the table has types.
pub open spec fn variable_leaves(table: TypeTable, var: DebugVariable) -> Seq<VariableSpec> {
    if var.name is None || var.address is None || type_at(table, var.ty) is None {
        Seq::empty()
    } else {
        let name = var.name->Some_0@;
        let address = var.address->Some_0;
        let t = type_at(table, var.ty)->Some_0;
        match t.kind {
            TypeKind::Base => match t.name {
                Some(types) => leaf(name, address, types@, t.byte_size),
                None => Seq::empty(),
            },
            TypeKind::Def => match type_at(table, t.target) {
                Some(target) => members_leaves(
                    table,
                    members_of(target),
                    name,
                    address,
                    table.types@.len(),
                ),
                None => Seq::empty(),
            },
            TypeKind::Struct => members_leaves(
                table,
                t.members@,
                name,
                address,
                table.types@.len(),
            ),
            _ => Seq::empty(),
        }
    }
}

/// The variable lies in memory: it has an address other than zero.
pub open spec fn is_placed(var: DebugVariable) -> bool {
    var.address matches Some(a) && a != 0
}

/// The catalog entries of the variables of one compilation unit: those of
/// each variable that lies in memory, in order.
pub open spec fn unit_leaves(table: TypeTable, variables: Seq<DebugVariable>) -> Seq<VariableSpec>
    decreases variables.len(),
{
    if variables.len() == 0 {
        Seq::empty()
    } else if is_placed(variables.last()) {
        unit_leaves(table, variables.drop_last()) + variable_leaves(table, variables.last())
    } else {
        unit_leaves(table, variables.drop_last())
    }
}

/// Every entry that a member gives rise to lies within the member: its name
/// continues the parent's name after a dot, and its address is not below
/// the parent's.
pub proof fn lemma_member_leaves_nest(
    table: TypeTable,
    m: MemberInfo,
    parent_name: Seq<char>,
    parent_address: u64,
    fuel: nat,
    k: int,
)
    requires
        0 <= k < member_leaves(table, m, parent_name, parent_address, fuel).len(),
    ensures
        has_prefix(
            member_leaves(table, m, parent_name, parent_address, fuel)[k].name,
            parent_name + seq!['.'],
        ),
        member_leaves(table, m, parent_name, parent_address, fuel)[k].address >= parent_address,
    decreases fuel, 0nat, 0nat,
{
    let name = dotted(parent_name, m.name->Some_0@);
    let address = (parent_address + m.bit_offset / 8) as u64;
    let t = type_at(table, m.ty)->Some_0;
    let leaves = member_leaves(table, m, parent_name, parent_address, fuel);
    let stem = parent_name + seq!['.'];
    assert(name.subrange(0, stem.len() as int) == stem);
    let nested = match t.kind {
        TypeKind::Def => members_of(type_at(table, t.target)->Some_0).len() > 0,
        TypeKind::Struct => true,
        _ => false,
    };
    if nested {
        let members = if t.kind == TypeKind::Struct {
            t.members@
        } else {
            members_of(type_at(table, t.target)->Some_0)
        };
        lemma_members_leaves_nest(table, members, name, address, (fuel - 1) as nat, k);
        let longer = name + seq!['.'];
        assert(longer.subrange(0, stem.len() as int) == stem);
        assert(leaves[k].name.subrange(0, stem.len() as int) == leaves[k].name.subrange(
            0,
            longer.len() as int,
        ).subrange(0, stem.len() as int));
    }
}

/// Every entry that a list of members gives rise to lies within their
/// parent.
pub proof fn lemma_members_leaves_nest(
    table: TypeTable,
    members: Seq<MemberInfo>,
    parent_name: Seq<char>,
    parent_address: u64,
    fuel: nat,
    k: int,
)
    requires
        0 <= k < members_leaves(table, members, parent_name, parent_address, fuel).len(),
    ensures
        has_prefix(
            members_leaves(table, members, parent_name, parent_address, fuel)[k].name,
            parent_name + seq!['.'],
        ),
        members_leaves(table, members, parent_name, parent_address, fuel)[k].address
            >= parent_address,
    decreases fuel, 1nat, members.len(),
{
    let head = members_leaves(table, members.drop_last(), parent_name, parent_address, fuel);
    if k < head.len() {
        lemma_members_leaves_nest(table, members.drop_last(), parent_name, parent_address, fuel, k);
    } else {
        lemma_member_leaves_nest(
            table,
            members.last(),
            parent_name,
            parent_address,
            fuel,
            k - head.len(),
        );
    }
}

/// Appends the catalog entry of a scalar to `out`.
fn push_leaf(
    out: &mut Vec<VariableInfo>,
    name: String,
    address: u64,
    types: String,
    size: Option<u64>,
)
    ensures
        catalog_view(final(out)@) == catalog_view(old(out)@) + leaf(name@, address, types@, size),
{
    match size {
        Some(bytes) => {
            if bytes <= usize::MAX as u64 {
                out.push(VariableInfo { name, types, address, size: bytes as usize });
                return;
            }
        },
        None => {},
    }
}

/// The name of the base type behind the type at `ty`.
fn find_base_type(table: &TypeTable, ty: Option<usize>) -> (r: Option<String>)
    ensures
        match r {
            Some(name) => base_type_name(*table, ty, table.types@.len()) == Some(name@),
            None => base_type_name(*table, ty, table.types@.len()) is None,
        },
{
    let mut at: Option<usize> = ty;
    let mut fuel: usize = table.types.len();
    loop
        invariant
            fuel <= table.types@.len(),
            base_type_name(*table, ty, table.types@.len()) == base_type_name(
                *table,
                at,
                fuel as nat,
            ),
        decreases fuel,
    {
        let i: usize = match at {
            Some(i) => i,
            None => {
                return None;
            },
        };
        if i >= table.types.len() {
            return None;
        }
        let t = &table.types[i];
        match t.kind {
            TypeKind::Base => {
                return match &t.name {
                    Some(name) => Some(name.clone()),
                    None => None,
                };
            },
            TypeKind::Def => {
                if fuel == 0 {
                    return None;
                }
                fuel = fuel - 1;
                at = t.target;
            },
            _ => {
                return None;
            },
        }
    }
}

/// Appends the catalog entries of one member to `out`.
fn collect_member(
    table: &TypeTable,
    member: &MemberInfo,
    parent_name: &str,
    parent_address: u64,
    fuel: usize,
    out: &mut Vec<VariableInfo>,
)
    ensures
        catalog_view(final(out)@) == catalog_view(old(out)@) + member_leaves(
            *table,
            *member,
            parent_name@,
            parent_address,
            fuel as nat,
        ),
    decreases fuel, 0nat, 0nat,
{
    let member_name = match &member.name {
        Some(name) => name,
        None => {
            return;
        },
    };
    let i: usize = match member.ty {
        Some(i) => i,
        None => {
            return;
        },
    };
    if i >= table.types.len() {
        return;
    }
    let address: u64 = match parent_address.checked_add(member.bit_offset / 8) {
        Some(address) => address,
        None => {
            return;
        },
    };
    let t = &table.types[i];
    let name = join_dotted(parent_name, member_name.as_str());
    match t.kind {
        TypeKind::Base => {
            match &t.name {
                Some(types) => push_leaf(out, name, address, types.clone(), t.byte_size),
                None => {},
            }
        },
        TypeKind::Def => {
            let j: usize = match t.target {
                Some(j) => j,
                None => {
                    return;
                },
            };
            if j >= table.types.len() {
                return;
            }
            let target = &table.types[j];
            let has_members: bool = (target.kind == TypeKind::Struct || target.kind
                == TypeKind::Union) && target.members.len() > 0;
            if !has_members {
                if target.kind == TypeKind::Def {
                    match find_base_type(table, target.target) {
                        Some(types) => push_leaf(out, name, address, types, target.byte_size),
                        None => {},
                    }
                }
            } else if fuel > 0 {
                collect_members(table, &target.members, name.as_str(), address, fuel - 1, out);
            }
        },
        TypeKind::Struct => {
            if fuel > 0 {
                collect_members(table, &t.members, name.as_str(), address, fuel - 1, out);
            }
        },
        TypeKind::Modifier(kind) => {
            match find_base_type(table, t.target) {
                Some(types) => match kind {
                    ModifierKind::Const => push_leaf(
                        out,
                        name,
                        address,
                        String::from_str("const ").concat(types.as_str()),
                        t.byte_size,
                    ),
                    ModifierKind::Volatile => push_leaf(
                        out,
                        name,
                        address,
                        String::from_str("volatile ").concat(types.as_str()),
                        t.byte_size,
                    ),
                    ModifierKind::Other => {},
                },
                None => {},
            }
        },
        _ => {},
    }
}

/// Appends the catalog entries of a list of members to `out`.
fn collect_members(
    table: &TypeTable,
    members: &Vec<MemberInfo>,
    parent_name: &str,
    parent_address: u64,
    fuel: usize,
    out: &mut Vec<VariableInfo>,
)
    ensures
        catalog_view(final(out)@) == catalog_view(old(out)@) + members_leaves(
            *table,
            members@,
            parent_name@,
            parent_address,
            fuel as nat,
        ),
    decreases fuel, 1nat, members.len(),
{
    let ghost before = catalog_view(out@);
    let mut k: usize = 0;
    while k < members.len()
        invariant
            k <= members.len(),
            catalog_view(out@) == before + members_leaves(
                *table,
                members@.take(k as int),
                parent_name@,
                parent_address,
                fuel as nat,
            ),
        decreases members.len() - k,
    {
        proof {
            assert(members@.take(k + 1).drop_last() == members@.take(k as int));
        }
        collect_member(table, &members[k], parent_name, parent_address, fuel, out);
        k = k + 1;
    }
    assert(members@.take(members.len() as int) == members@);
}

/// Appends the catalog entries of one variable to `out`.
fn collect_variable(table: &TypeTable, var: &DebugVariable, out: &mut Vec<VariableInfo>)
    ensures
        catalog_view(final(out)@) == catalog_view(old(out)@) + variable_leaves(*table, *var),
{
    let name = match &var.name {
        Some(name) => name,
        None => {
            return;
        },
    };
    let address: u64 = match var.address {
        Some(address) => address,
        None => {
            return;
        },
    };
    let i: usize = match var.ty {
        Some(i) => i,
        None => {
            return;
        },
    };
    if i >= table.types.len() {
        return;
    }
    let t = &table.types[i];
    let depth: usize = table.types.len();
    match t.kind {
        TypeKind::Base => {
            match &t.name {
                Some(types) => push_leaf(out, name.clone(), address, types.clone(), t.byte_size),
                None => {},
            }
        },
        TypeKind::Def => {
            let j: usize = match t.target {
                Some(j) => j,
                None => {
                    return;
                },
            };
            if j >= table.types.len() {
                return;
            }
            let target = &table.types[j];
            if target.kind == TypeKind::Struct || target.kind == TypeKind::Union {
                collect_members(table, &target.members, name.as_str(), address, depth, out);
            }
        },
        TypeKind::Struct => {
            collect_members(table, &t.members, name.as_str(), address, depth, out);
        },
        _ => {},
    }
}

/// The catalog entries that the variable `var` gives rise to.
pub fn get_variable_info(var: &DebugVariable, hash: &TypeTable) -> (r: Vec<VariableInfo>)
    ensures
        catalog_view(r@) == variable_leaves(*hash, *var),
{
    let mut vars_vec: Vec<VariableInfo> = Vec::new();
    collect_variable(hash, var, &mut vars_vec);
    vars_vec
}

/// The catalog entries that `member` gives rise to as a member of the
/// variable or member called `parent_name` at `parent_address`. Nesting is
/// followed as deep as the table has types.
pub fn get_member(
    member: &MemberInfo,
    hash: &TypeTable,
    parent_name: String,
    parent_address: u64,
) -> (r: Vec<VariableInfo>)
    ensures
        catalog_view(r@) == member_leaves(
            *hash,
            *member,
            parent_name@,
            parent_address,
            hash.types@.len(),
        ),
{
    let mut vars_vec: Vec<VariableInfo> = Vec::new();
    let depth: usize = hash.types.len();
    collect_member(hash, member, parent_name.as_str(), parent_address, depth, &mut vars_vec);
    vars_vec
}

/// The name of the base type that the type at `type_offset` is, directly or
/// through aliases.
pub fn get_base_type(type_offset: Option<usize>, hash: &TypeTable) -> (r: Option<String>)
    ensures
        match r {
            Some(name) => base_type_name(*hash, type_offset, hash.types@.len()) == Some(name@),
            None => base_type_name(*hash, type_offset, hash.types@.len()) is None,
        },
{
    find_base_type(hash, type_offset)
}

/// What an `ELFParser` stands for: the catalog gathered so far and the
/// compilation units counted.
pub struct ElfScanState {
    pub catalog: Seq<VariableSpec>,
    pub progress: ScanProgress,
}

/// A scan of the variables of a firmware image through its debug
/// information, one compilation unit at a time.
pub struct ELFParser {
    variable_list: Vec<VariableInfo>,
    progress: ScanProgress,
}

impl View for ELFParser {
    type V = ElfScanState;

    closed spec fn view(&self) -> ElfScanState {
        ElfScanState { catalog: catalog_view(self.variable_list@), progress: self.progress }
    }
}

/// The state of a scan that expects `units` compilation units. A scan of no
/// units is complete at once.
pub open spec fn elf_started(units: usize) -> ElfScanState {
    ElfScanState {
        catalog: Seq::empty(),
        progress: ScanProgress { done: 0, total: units, complete: units == 0 },
    }
}

/// The state after the variables of one more compilation unit have been
/// taken in. The last unit completes the scan; a complete scan takes in
/// nothing more.
pub open spec fn elf_step(s: ElfScanState, table: TypeTable, variables: Seq<DebugVariable>)
    -> ElfScanState {
    if s.progress.done >= s.progress.total {
        s
    } else {
        ElfScanState {
            catalog: s.catalog + unit_leaves(table, variables),
            progress: ScanProgress {
                done: (s.progress.done + 1) as usize,
                total: s.progress.total,
                complete: s.progress.done + 1 == s.progress.total,
            },
        }
    }
}

/// Progress never goes back, and it is full exactly when the last unit has
/// been taken in; from then on nothing changes.
pub proof fn lemma_elf_progress_monotone(
    s: ElfScanState,
    table: TypeTable,
    variables: Seq<DebugVariable>,
)
    requires
        s.progress.well_formed(),
    ensures
        elf_step(s, table, variables).progress.well_formed(),
        elf_step(s, table, variables).progress.not_behind(s.progress),
        elf_step(s, table, variables).progress.total == s.progress.total,
        s.progress.complete ==> elf_step(s, table, variables) == s,
{
}

impl ELFParser {
    /// The scan is in a state that `launch` and its methods lead to.
    pub open spec fn wf(&self) -> bool {
        self@.progress.well_formed()
    }

    /// A scan that has not been started: nothing is done and nothing found.
    pub fn launch() -> (r: ELFParser)
        ensures
            r.wf(),
            r@ == (ElfScanState {
                catalog: Seq::empty(),
                progress: ScanProgress { done: 0, total: 0, complete: false },
            }),
    {
        let r = ELFParser {
            variable_list: Vec::new(),
            progress: ScanProgress { done: 0, total: 0, complete: false },
        };
        assert(catalog_view(r.variable_list@) =~= Seq::<VariableSpec>::empty());
        r
    }

    /// Starts a scan of an image of `units` compilation units, dropping
    /// whatever an earlier scan found.
    pub fn scan_variables_none_blocking_start(&mut self, units: usize)
        ensures
            final(self).wf(),
            final(self)@ == elf_started(units),
    {
        self.variable_list = Vec::new();
        self.progress = ScanProgress { done: 0, total: units, complete: units == 0 };
        assert(catalog_view(self.variable_list@) =~= Seq::<VariableSpec>::empty());
    }

    /// Takes in the variables of the next compilation unit.
    pub fn scan_unit(&mut self, hash: &TypeTable, variables: &Vec<DebugVariable>)
        requires
            old(self).wf(),
        ensures
            final(self).wf(),
            final(self)@ == elf_step(old(self)@, *hash, variables@),
    {
        if self.progress.done >= self.progress.total {
            return;
        }
        let ghost before = catalog_view(self.variable_list@);
        let mut k: usize = 0;
        while k < variables.len()
            invariant
                k <= variables.len(),
                self.progress == old(self).progress,
                catalog_view(self.variable_list@) == before + unit_leaves(
                    *hash,
                    variables@.take(k as int),
                ),
            decreases variables.len() - k,
        {
            proof {
                assert(variables@.take(k + 1).drop_last() == variables@.take(k as int));
            }
            let var = &variables[k];
            let placed: bool = match var.address {
                Some(address) => address != 0,
                None => false,
            };
            if placed {
                collect_variable(hash, var, &mut self.variable_list);
            }
            k = k + 1;
        }
        assert(variables@.take(variables.len() as int) == variables@);
        let done: usize = self.progress.done + 1;
        self.progress = ScanProgress {
            done,
            total: self.progress.total,
            complete: done == self.progress.total,
        };
    }

    /// The catalog, once the scan is complete; until then the empty list.
    pub fn load_variable_list(&self) -> (r: Vec<VariableInfo>)
        ensures
            catalog_view(r@) == if self@.progress.complete {
                self@.catalog
            } else {
                Seq::<VariableSpec>::empty()
            },
    {
        if self.progress.complete {
            copy_catalog(&self.variable_list)
        } else {
            let list: Vec<VariableInfo> = Vec::new();
            list
        }
    }

    /// How far the scan has come: the compilation units taken in out of all
    /// of them.
    pub fn get_scan_progress(&self) -> (r: ScanProgress)
        ensures
            r == self@.progress,
    {
        self.progress
    }
}

/// The part of a compilation unit's name that may name a chip: what follows
/// the first `startup_`, without any `.s`.
pub open spec fn chip_stem_of(unit_name: Seq<char>) -> Option<Seq<char>> {
    match after_first(unit_name, "startup_"@) {
        Some(rest) => Some(without_all(rest, ".s"@)),
        None => None,
    }
}

/// A name is taken for that of a chip if it starts with `STM32`.
pub open spec fn accepted_chip(name: Seq<char>) -> Option<Seq<char>> {
    if has_prefix(name, "STM32"@) {
        Some(name)
    } else {
        None
    }
}

/// The chip that a compilation unit's name gives away: the name's part
/// after `startup_`, without any `.s`, in upper case, provided it starts
/// with `STM32`.
pub open spec fn chip_in_unit(unit_name: Seq<char>) -> Option<Seq<char>> {
    match chip_stem_of(unit_name) {
        Some(stem) => accepted_chip(upper_case(stem)),
        None => None,
    }
}

/// The chip that the first telling name among `unit_names` gives away.
pub open spec fn chip_in_units(unit_names: Seq<Seq<char>>) -> Option<Seq<char>>
    decreases unit_names.len(),
{
    if unit_names.len() == 0 {
        None
    } else {
        match chip_in_unit(unit_names[0]) {
            Some(chip) => Some(chip),
            None => chip_in_units(unit_names.drop_first()),
        }
    }
}

/// The part of a compilation unit's name that may name a chip.
pub fn chip_stem(unit_name: &str) -> (r: Option<String>)
    ensures
        match r {
            Some(stem) => chip_stem_of(unit_name@) == Some(stem@),
            None => chip_stem_of(unit_name@) is None,
        },
{
    let name = chars_of(unit_name);
    match take_after_first(&name, &chars_of("startup_")) {
        Some(rest) => Some(string_of(&remove_all(&rest, &chars_of(".s")))),
        None => None,
    }
}

/// The name, if it is taken for that of a chip.
pub fn accept_chip(name: String) -> (r: Option<String>)
    ensures
        match r {
            Some(chip) => accepted_chip(name@) == Some(chip@),
            None => accepted_chip(name@) is None,
        },
{
    if matches_at(&chars_of(name.as_str()), &chars_of("STM32"), 0) {
        Some(name)
    } else {
        None
    }
}

/// The chip that a compilation unit's name gives away.
pub fn chip_from_unit(unit_name: &str) -> (r: Option<String>)
    ensures
        match r {
            Some(chip) => chip_in_unit(unit_name@) == Some(chip@),
            None => chip_in_unit(unit_name@) is None,
        },
{
    match chip_stem(unit_name) {
        Some(stem) => accept_chip(stem.as_str().to_uppercase()),
        None => None,
    }
}

/// The chip that the first telling name among `unit_names` gives away.
pub fn chip_from_units(unit_names: &Vec<String>) -> (r: Option<String>)
    ensures
        match r {
            Some(chip) => chip_in_units(texts_of(unit_names@)) == Some(chip@),
            None => chip_in_units(texts_of(unit_names@)) is None,
        },
{
    let ghost names = texts_of(unit_names@);
    let mut i: usize = 0;
    assert(names.skip(0) == names);
    while i < unit_names.len()
        invariant
            i <= unit_names.len(),
            names == texts_of(unit_names@),
            chip_in_units(names) == chip_in_units(names.skip(i as int)),
        decreases unit_names.len() - i,
    {
        proof {
            assert(names.skip(i as int).drop_first() == names.skip(i + 1));
        }
        match chip_from_unit(unit_names[i].as_str()) {
            Some(chip) => {
                return Some(chip);
            },
            None => {},
        }
        i = i + 1;
    }
    None
}

/// The key of the line of a project file that names the device.
pub const DEVICE_ID_KEY: &'static str = "ProjectManager.DeviceId=";

/// The first line of `content`, and what follows its line feed, if it has
/// one. A carriage return before the line feed belongs to the line ending.
pub open spec fn first_line(content: Seq<char>) -> (Seq<char>, Option<Seq<char>>) {
    let rest = after_first(content, seq!['\n']);
    let line = before_first(content, seq!['\n']);
    if rest is Some {
        (without_suffix(line, seq!['\r']), rest)
    } else {
        (line, rest)
    }
}

/// The device that a project file names: what follows the key on the first
/// line that starts with it.
pub open spec fn device_id_in(content: Seq<char>) -> Option<Seq<char>>
    decreases content.len(),
{
    let (line, rest) = first_line(content);
    if has_prefix(line, DEVICE_ID_KEY@) {
        Some(line.skip(DEVICE_ID_KEY@.len() as int))
    } else {
        match rest {
            Some(more) if more.len() < content.len() => device_id_in(more),
            _ => None,
        }
    }
}

/// What follows the first line of a text is shorter than the text, so that
/// `device_id_in` looks at every line.
pub proof fn lemma_rest_is_shorter(content: Seq<char>)
    ensures
        first_line(content).1 matches Some(rest) ==> rest.len() < content.len(),
{
    lemma_after_first_is_shorter(content, seq!['\n']);
}

/// The device that a project file names.
pub fn device_id_from_project(content: &str) -> (r: Option<String>)
    ensures
        match r {
            Some(id) => device_id_in(content@) == Some(id@),
            None => device_id_in(content@) is None,
        },
{
    let key = chars_of(DEVICE_ID_KEY);
    let feed: Vec<char> = vec!['\n'];
    let carriage: Vec<char> = vec!['\r'];
    let mut text: Vec<char> = chars_of(content);
    loop
        invariant
            key@ == DEVICE_ID_KEY@,
            feed@ == seq!['\n'],
            carriage@ == seq!['\r'],
            device_id_in(content@) == device_id_in(text@),
        decreases text.len(),
    {
        proof {
            lemma_rest_is_shorter(text@);
        }
        let rest = take_after_first(&text, &feed);
        let whole = take_before_first(&text, &feed);
        let line = if rest.is_some() {
            strip_suffix(whole, &carriage)
        } else {
            whole
        };
        if matches_at(&line, &key, 0) {
            return Some(string_of(&slice_of(&line, key.len(), line.len())));
        }
        match rest {
            Some(more) => {
                text = more;
            },
            None => {
                return None;
            },
        }
    }
}

/// The chip that an image is built for: the one that the name of a
/// compilation unit gives away, else the device that the project file
/// names, where there is such a file.
pub fn search_target_mcu_name(unit_names: &Vec<String>, project_file: Option<&str>) -> (r: Option<
    String,
>)
    ensures
        match chip_in_units(texts_of(unit_names@)) {
            Some(chip) => r matches Some(found) && found@ == chip,
            None => match project_file {
                Some(content) => match device_id_in(content@) {
                    Some(id) => r matches Some(found) && found@ == id,
                    None => r is None,
                },
                None => r is None,
            },
        },
{
    match chip_from_units(unit_names) {
        Some(chip) => Some(chip),
        None => match project_file {
            Some(content) => device_id_from_project(content),
            None => None,
        },
    }
}

/// Whether the directory at depth `depth` of `ancestors` is the project's:
/// the deepest one that bears the project's name.
pub open spec fn is_project_dir(ancestors: Seq<Seq<char>>, project: Seq<char>, depth: int) -> bool {
    &&& 0 <= depth < ancestors.len()
    &&& ancestors[depth] == project
    &&& forall|k: int| depth < k < ancestors.len() ==> ancestors[k] != project
}

/// Finds the project's directory among the directories that contain the
/// image. `ancestors` holds their names from the outermost to the one that
/// holds the image; the answer is the position of the innermost one that
/// bears the project's name.
pub fn find_project_dir(ancestors: &Vec<String>, project: &str) -> (r: Option<usize>)
    ensures
        match r {
            Some(depth) => is_project_dir(texts_of(ancestors@), project@, depth as int),
            None => forall|k: int|
                0 <= k < ancestors.len() ==> (#[trigger] texts_of(ancestors@)[k]) != project@,
        },
{
    let name = chars_of(project);
    let mut i: usize = ancestors.len();
    while i > 0
        invariant
            i <= ancestors.len(),
            name@ == project@,
            forall|k: int|
                i <= k < ancestors.len() ==> (#[trigger] texts_of(ancestors@)[k]) != project@,
        decreases i,
    {
        i = i - 1;
        if is_literal(&name, ancestors[i].as_str()) {
            return Some(i);
        }
    }
    None
}

} // verus!
