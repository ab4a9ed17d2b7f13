//! The protocol-session strategy of the symbol scanner: what to ask a
//! symbolic debugger in machine-interface mode, and what its replies mean.
//!
//! Nothing here talks to a process. A reply is the list of lines that the
//! debugger printed before its prompt; a command is a line to send to it.

use vstd::prelude::*;
use vstd::string::StringExecFns;
use crate::error::Error;
use crate::number::{decimal_value_within, integer_value_within, parse_decimal, parse_hex};
use crate::pattern::{capture_first_group, compile, first_group, source_of};
use crate::progress::ScanProgress;
use crate::variable::{catalog_view, copy_catalog, VariableInfo, VariableSpec};
use crate::text::{
    after_last, before_first, chars_of, contains, contains_text, distinct_parts, dotted,
    has_prefix, is_literal, is_part_of, join_dotted, lemma_dotted_stays_distinct, matches_at,
    slice_of, split_on, take_after_last, take_before_first, texts_of, trim, trimmed,
};

verus! {

/// Finds the name in a line that declares a variable or a member.
pub const NAME_PATTERN: &'static str = r"(\w+)\[?\d*\]?;";

/// Finds the address in a line that prints one in hexadecimal.
pub const ADDRESS_PATTERN: &'static str = r#"~"\$[0-9]+ = (0x[0-9a-fA-F]+)\\n"#;

/// Finds the type in a line that describes one.
pub const TYPE_PATTERN: &'static str = r#"~"type = ([^"]+)\\n"#;

/// What `pattern` captures in each line of `lines` that it matches, in the
/// order of the lines.
pub open spec fn captures_in(pattern: Seq<char>, lines: Seq<Seq<char>>) -> Seq<Seq<char>>
    decreases lines.len(),
{
    if lines.len() == 0 {
        Seq::empty()
    } else {
        match first_group(pattern, lines.last()) {
            Some(text) => captures_in(pattern, lines.drop_last()).push(text),
            None => captures_in(pattern, lines.drop_last()),
        }
    }
}

/// What `pattern` captures in the first line of `lines` that it matches.
pub open spec fn first_capture(pattern: Seq<char>, lines: Seq<Seq<char>>) -> Option<Seq<char>>
    decreases lines.len(),
{
    if lines.len() == 0 {
        None
    } else {
        match first_group(pattern, lines[0]) {
            Some(text) => Some(text),
            None => first_capture(pattern, lines.drop_first()),
        }
    }
}

/// The address that a captured text denotes: hexadecimal after `0x`, decimal
/// otherwise, in either case with an optional `+` before the digits.
pub open spec fn address_value(text: Seq<char>) -> Option<u64> {
    if has_prefix(text, seq!['0', 'x']) {
        match integer_value_within(
            text.subrange(2, text.len() as int),
            16,
            false,
            0,
            u64::MAX as int,
        ) {
            Some(v) => Some(v as u64),
            None => None,
        }
    } else {
        match decimal_value_within(text, false, 0, u64::MAX as int) {
            Some(v) => Some(v as u64),
            None => None,
        }
    }
}

/// The part of a line that holds a printed size: what follows the last `= `
/// and precedes the first escaped line feed, without the white space around
/// it.
pub open spec fn size_text(line: Seq<char>) -> Seq<char> {
    trimmed(before_first(after_last(line, seq!['=', ' ']), seq!['\\', 'n']))
}

/// The size that the reply to a size query states, if it states one.
pub open spec fn size_in(lines: Seq<Seq<char>>) -> Option<usize> {
    if lines.len() < 2 {
        None
    } else {
        match decimal_value_within(size_text(lines[1]), false, 0, usize::MAX as int) {
            Some(v) => Some(v as usize),
            None => None,
        }
    }
}

/// A reply shows a type that has nothing left to expand when it has exactly
/// three lines.
pub open spec fn is_expanded(lines: Seq<Seq<char>>) -> bool {
    lines.len() == 3
}

/// What the lines of a describe-type reply show before any name is looked
/// for.
#[derive(Clone, Copy, Debug, PartialEq, Eq, Structural)]
pub enum ReplyShape {
    /// The reply has no line.
    Empty,
    /// The reply has a single line, and so no line to tell a pointer by.
    Malformed,
    /// A pointer, an enumeration or a constant: nothing to list.
    Opaque,
    /// Anything else: the members or the type are to be looked for.
    Open,
}

/// The shape of a reply. A pointer shows by a `*` in the last line but one,
/// an enumeration by ` enum ` and a constant by `const` in the second line.
pub open spec fn shape_of(lines: Seq<Seq<char>>) -> ReplyShape {
    if lines.len() == 0 {
        ReplyShape::Empty
    } else if lines.len() == 1 {
        ReplyShape::Malformed
    } else if contains_text(lines[lines.len() - 2], seq!['*']) || contains_text(
        lines[1],
        " enum "@,
    ) || contains_text(lines[1], "const"@) {
        ReplyShape::Opaque
    } else {
        ReplyShape::Open
    }
}

/// What an open reply lists, given the names and the type found in it: the
/// names if there are any, else the type if there is one.
pub open spec fn listing(names: Seq<Seq<char>>, described: Option<Seq<char>>) -> Seq<Seq<char>> {
    if names.len() > 0 {
        names
    } else {
        match described {
            Some(text) => seq![text],
            None => Seq::empty(),
        }
    }
}

/// What the reply to a describe-type query lists: the names of the members,
/// or else the name of the type itself. Nothing is listed for a pointer, an
/// enumeration or a constant. `None` for a reply of a single line.
pub open spec fn listed_in(lines: Seq<Seq<char>>) -> Option<Seq<Seq<char>>> {
    match shape_of(lines) {
        ReplyShape::Empty => Some(Seq::empty()),
        ReplyShape::Malformed => None,
        ReplyShape::Opaque => Some(Seq::empty()),
        ReplyShape::Open => Some(
            listing(captures_in(NAME_PATTERN@, lines), first_capture(TYPE_PATTERN@, lines)),
        ),
    }
}

/// No line captures anything for a pattern that captures nothing anywhere.
pub proof fn lemma_no_captures(pattern: Seq<char>, lines: Seq<Seq<char>>)
    requires
        forall|haystack: Seq<char>| (#[trigger] first_group(pattern, haystack)) is None,
    ensures
        captures_in(pattern, lines) == Seq::<Seq<char>>::empty(),
        first_capture(pattern, lines) is None,
    decreases lines.len(),
{
    if lines.len() > 0 {
        lemma_no_captures(pattern, lines.drop_last());
        lemma_no_captures(pattern, lines.drop_first());
    }
}

/// What `pattern` captures in the lines of a reply, line by line.
pub fn capture_all(pattern: &str, input: &Vec<String>) -> (r: Vec<String>)
    ensures
        texts_of(r@) == captures_in(pattern@, texts_of(input@)),
{
    let mut results: Vec<String> = Vec::new();
    let ghost lines = texts_of(input@);
    let expression = match compile(pattern) {
        Some(expression) => expression,
        None => {
            proof {
                lemma_no_captures(pattern@, lines);
            }
            return results;
        },
    };
    let mut i: usize = 0;
    while i < input.len()
        invariant
            i <= input.len(),
            lines == texts_of(input@),
            source_of(expression) == pattern@,
            texts_of(results@) == captures_in(pattern@, lines.take(i as int)),
        decreases input.len() - i,
    {
        proof {
            assert(lines.take(i + 1).drop_last() == lines.take(i as int));
        }
        match capture_first_group(&expression, input[i].as_str()) {
            Some(text) => {
                results.push(text);
            },
            None => {},
        }
        i = i + 1;
    }
    assert(lines.take(input.len() as int) == lines);
    results
}

/// What `pattern` captures in the first line of a reply that it matches.
pub fn capture_first(pattern: &str, input: &Vec<String>) -> (r: Option<String>)
    ensures
        match r {
            Some(text) => first_capture(pattern@, texts_of(input@)) == Some(text@),
            None => first_capture(pattern@, texts_of(input@)) is None,
        },
{
    let ghost lines = texts_of(input@);
    let expression = match compile(pattern) {
        Some(expression) => expression,
        None => {
            proof {
                lemma_no_captures(pattern@, lines);
            }
            return None;
        },
    };
    let mut i: usize = 0;
    assert(lines.skip(0) == lines);
    while i < input.len()
        invariant
            i <= input.len(),
            lines == texts_of(input@),
            source_of(expression) == pattern@,
            first_capture(pattern@, lines) == first_capture(pattern@, lines.skip(i as int)),
        decreases input.len() - i,
    {
        proof {
            assert(lines.skip(i as int).drop_first() == lines.skip(i + 1));
        }
        match capture_first_group(&expression, input[i].as_str()) {
            Some(text) => {
                return Some(text);
            },
            None => {},
        }
        i = i + 1;
    }
    None
}

/// The address that a captured text denotes.
pub fn parse_address(text: &str) -> (r: Option<u64>)
    ensures
        r == address_value(text@),
{
    let chars = chars_of(text);
    let marker: Vec<char> = vec!['0', 'x'];
    if matches_at(&chars, &marker, 0) {
        let digits = slice_of(&chars, 2, chars.len());
        parse_hex(&digits)
    } else {
        match parse_decimal(&chars, false, 0, 0xffff_ffff_ffff_ffff) {
            Some(v) => Some(v as u64),
            None => None,
        }
    }
}

/// A variable as the debugger lists it, with its address still as text.
#[derive(Clone, Debug)]
pub struct VariableList {
    pub name: String,
    pub types: String,
    pub address: String,
}

impl VariableList {
    /// The catalog entry for this variable with the size given, provided
    /// that its address can be read.
    pub fn resolve(&self, size: usize) -> (r: Option<VariableInfo>)
        ensures
            match address_value(self.address@) {
                Some(address) => r matches Some(v) && v@ == (VariableSpec {
                    name: self.name@,
                    types: self.types@,
                    address,
                    size,
                }),
                None => r is None,
            },
    {
        match parse_address(self.address.as_str()) {
            Some(address) => Some(
                VariableInfo {
                    name: self.name.clone(),
                    types: self.types.clone(),
                    address,
                    size,
                },
            ),
            None => None,
        }
    }
}

/// The names that the lines of a reply declare.
pub fn extract_variable_names(input: &Vec<String>) -> (r: Vec<String>)
    ensures
        texts_of(r@) == captures_in(NAME_PATTERN@, texts_of(input@)),
{
    capture_all(NAME_PATTERN, input)
}

/// The type that a reply describes.
pub fn extract_variable_type(input: &Vec<String>) -> (r: Option<String>)
    ensures
        match r {
            Some(text) => first_capture(TYPE_PATTERN@, texts_of(input@)) == Some(text@),
            None => first_capture(TYPE_PATTERN@, texts_of(input@)) is None,
        },
{
    capture_first(TYPE_PATTERN, input)
}

/// The shape of a reply.
pub fn reply_shape(input: &Vec<String>) -> (r: ReplyShape)
    ensures
        r == shape_of(texts_of(input@)),
{
    if input.len() == 0 {
        return ReplyShape::Empty;
    }
    if input.len() == 1 {
        return ReplyShape::Malformed;
    }
    let star: Vec<char> = vec!['*'];
    assert(star@ == seq!['*']);
    let second_last = chars_of(input[input.len() - 2].as_str());
    let second = chars_of(input[1].as_str());
    if contains(&second_last, &star) || contains(&second, &chars_of(" enum ")) || contains(
        &second,
        &chars_of("const"),
    ) {
        ReplyShape::Opaque
    } else {
        ReplyShape::Open
    }
}

/// What an open reply lists, given the names and the type found in it.
pub fn listing_of(names: Vec<String>, described: Option<String>) -> (r: Vec<String>)
    ensures
        texts_of(r@) == listing(
            texts_of(names@),
            match described {
                Some(text) => Some(text@),
                None => None,
            },
        ),
{
    if names.len() > 0 {
        names
    } else {
        let mut list = names;
        match described {
            Some(text) => {
                list.push(text);
            },
            None => {
            },
        }
        list
    }
}

/// The size that the reply to a size query states; `ParseError` where it
/// states none.
pub fn extract_size(input: &Vec<String>) -> (r: Result<usize, Error>)
    ensures
        match size_in(texts_of(input@)) {
            Some(size) => r matches Ok(s) && s == size,
            None => r matches Err(Error::ParseError),
        },
{
    if input.len() < 2 {
        return Err(Error::ParseError);
    }
    let line = chars_of(input[1].as_str());
    let equals: Vec<char> = vec!['=', ' '];
    let line_feed: Vec<char> = vec!['\\', 'n'];
    let text = trim(&take_before_first(&take_after_last(&line, &equals), &line_feed));
    match parse_decimal(&text, false, 0, usize::MAX as i128) {
        Some(v) => Ok(v as usize),
        None => Err(Error::ParseError),
    }
}

/// The query that lists the variables of the image.
pub const LIST_COMMAND: &'static str = "info variables";

/// The query that describes the type of `name`.
pub open spec fn describe_command(name: Seq<char>) -> Seq<char> {
    "ptype "@ + name
}

/// The query that prints the size of `name`.
pub open spec fn size_command(name: Seq<char>) -> Seq<char> {
    "p sizeof "@ + name
}

/// The query that prints the address of `name` in hexadecimal.
pub open spec fn address_command(name: Seq<char>) -> Seq<char> {
    "print /x &("@ + name + ")"@
}

/// The members to query in place of `parent`: one for each listed name that
/// is not already a segment of the dotted path `parent`.
pub open spec fn children_of(parent: Seq<char>, listed: Seq<Seq<char>>) -> Seq<Seq<char>>
    decreases listed.len(),
{
    if listed.len() == 0 {
        Seq::empty()
    } else if split_on(parent, '.').contains(listed.last()) {
        children_of(parent, listed.drop_last())
    } else {
        children_of(parent, listed.drop_last()).push(dotted(parent, listed.last()))
    }
}

/// The symbols that take the place of `symbol` once the reply to its
/// describe-type query is known: the symbol itself where the reply shows it
/// expanded, else its new members; none where the reply cannot be read.
pub open spec fn expansion(symbol: Seq<char>, lines: Seq<Seq<char>>) -> Seq<Seq<char>> {
    if is_expanded(lines) {
        seq![symbol]
    } else {
        match listed_in(lines) {
            Some(listed) => children_of(symbol, listed),
            None => Seq::empty(),
        }
    }
}

/// A symbol whose reply shows it expanded is kept as it is, and nothing is
/// put in its place that would be queried as a member.
pub proof fn lemma_expanded_is_final(symbol: Seq<char>, lines: Seq<Seq<char>>)
    requires
        is_expanded(lines),
    ensures
        expansion(symbol, lines) == seq![symbol],
{
}

/// Every member that takes the place of `parent` bears a name that no
/// segment of the dotted path `parent` bears.
pub proof fn lemma_children_are_new(parent: Seq<char>, listed: Seq<Seq<char>>, k: int)
    requires
        0 <= k < children_of(parent, listed).len(),
    ensures
        exists|child: Seq<char>|
            #![trigger dotted(parent, child)]
            children_of(parent, listed)[k] == dotted(parent, child) && listed.contains(child)
                && !split_on(parent, '.').contains(child),
    decreases listed.len(),
{
    let last = listed.last();
    let head = listed.drop_last();
    if split_on(parent, '.').contains(last) || k < children_of(parent, head).len() {
        lemma_children_are_new(parent, head, k);
    }
}

/// Expansion never leads back: a member that takes the place of a symbol
/// whose dotted path has no two equal segments has a path without two equal
/// segments again, the listed names being plain names without dots. So a
/// path can grow only as long as the debugger comes up with new names.
pub proof fn lemma_paths_never_repeat(parent: Seq<char>, listed: Seq<Seq<char>>, k: int)
    requires
        0 <= k < children_of(parent, listed).len(),
        distinct_parts(parent, '.'),
        forall|i: int| 0 <= i < listed.len() ==> !(#[trigger] listed[i]).contains('.'),
    ensures
        distinct_parts(children_of(parent, listed)[k], '.'),
{
    lemma_children_are_new(parent, listed, k);
    let child = choose|child: Seq<char>|
        #![trigger dotted(parent, child)]
        children_of(parent, listed)[k] == dotted(parent, child) && listed.contains(child)
            && !split_on(parent, '.').contains(child);
    lemma_dotted_stays_distinct(parent, child);
}

/// The query that describes the type of `name`.
pub fn make_describe_command(name: &str) -> (r: String)
    ensures
        r@ == describe_command(name@),
{
    String::from_str("ptype ").concat(name)
}

/// The query that prints the size of `name`.
pub fn make_size_command(name: &str) -> (r: String)
    ensures
        r@ == size_command(name@),
{
    String::from_str("p sizeof ").concat(name)
}

/// The query that prints the address of `name`.
pub fn make_address_command(name: &str) -> (r: String)
    ensures
        r@ == address_command(name@),
{
    String::from_str("print /x &(").concat(name).concat(")")
}

/// The members to query in place of `parent`, given the names that its
/// reply lists.
pub fn make_children(parent: &str, listed: &Vec<String>) -> (r: Vec<String>)
    ensures
        texts_of(r@) == children_of(parent@, texts_of(listed@)),
{
    let path = chars_of(parent);
    let ghost names = texts_of(listed@);
    let mut children: Vec<String> = Vec::new();
    let mut i: usize = 0;
    while i < listed.len()
        invariant
            i <= listed.len(),
            path@ == parent@,
            names == texts_of(listed@),
            texts_of(children@) == children_of(parent@, names.take(i as int)),
        decreases listed.len() - i,
    {
        proof {
            assert(names.take(i + 1).drop_last() == names.take(i as int));
        }
        let child = chars_of(listed[i].as_str());
        if !is_part_of(&path, '.', &child) {
            let full = join_dotted(parent, listed[i].as_str());
            children.push(full);
        }
        i = i + 1;
    }
    assert(names.take(listed.len() as int) == names);
    children
}

/// Where a scan stands.
#[derive(Clone, Copy, Debug, PartialEq, Eq, Structural)]
pub enum ScanPhase {
    /// No scan has been started.
    Idle,
    /// The list of variables has been asked for.
    Listing,
    /// The type of the current symbol has been asked for.
    Describing,
    /// The size of the current symbol has been asked for.
    Sizing,
    /// The address of the current symbol has been asked for.
    Locating,
    /// The catalog is ready.
    Finished,
    /// The session broke down; there is no catalog.
    Failed,
}

/// What a `GdbParser` stands for.
pub struct ScanState {
    pub phase: ScanPhase,
    /// The top-level symbols, as listed by the debugger.
    pub roots: Seq<Seq<char>>,
    /// The number of top-level symbols that are finished.
    pub root: nat,
    /// The members of the current top-level symbol that are still to be
    /// described; the next one is the last.
    pub stack: Seq<Seq<char>>,
    /// The symbol that the pending query is about.
    pub current: Seq<char>,
    /// The type found for the current symbol.
    pub current_type: Seq<char>,
    /// The size found for the current symbol.
    pub current_size: usize,
    /// The variables resolved so far.
    pub catalog: Seq<VariableSpec>,
}

/// What the scan wants done next, as a text.
pub enum ScanCommand {
    /// Send this line to the debugger and hand its reply back.
    Send(Seq<char>),
    /// Nothing is left to do.
    Done,
    /// The session failed; give the scan up.
    Abort,
}

/// What the scan wants done next.
#[derive(Debug)]
pub enum ScanAction {
    /// Send this line to the debugger and hand its reply back.
    Send(String),
    /// Nothing is left to do.
    Done,
    /// The session failed with this error; give the scan up.
    Abort(Error),
}

impl View for ScanAction {
    type V = ScanCommand;

    open spec fn view(&self) -> ScanCommand {
        match self {
            ScanAction::Send(line) => ScanCommand::Send(line@),
            ScanAction::Done => ScanCommand::Done,
            ScanAction::Abort(_) => ScanCommand::Abort,
        }
    }
}

/// The state of a scan that has not been started.
pub open spec fn idle() -> ScanState {
    ScanState {
        phase: ScanPhase::Idle,
        roots: Seq::empty(),
        root: 0,
        stack: Seq::empty(),
        current: Seq::empty(),
        current_type: Seq::empty(),
        current_size: 0,
        catalog: Seq::empty(),
    }
}

/// The state in which a scan starts, and the query it starts with.
pub open spec fn started() -> (ScanState, ScanCommand) {
    (
        ScanState {
            phase: ScanPhase::Listing,
            roots: Seq::empty(),
            root: 0,
            stack: Seq::empty(),
            current: Seq::empty(),
            current_type: Seq::empty(),
            current_size: 0,
            catalog: Seq::empty(),
        },
        ScanCommand::Send(LIST_COMMAND@),
    )
}

/// Leaves the current symbol and turns to the next one: the next member of
/// the current top-level symbol, else the next top-level symbol, else the
/// scan is finished.
pub open spec fn advance(s: ScanState) -> (ScanState, ScanCommand) {
    if s.stack.len() > 0 {
        let next = s.stack.last();
        (
            ScanState {
                phase: ScanPhase::Describing,
                stack: s.stack.drop_last(),
                current: next,
                ..s
            },
            ScanCommand::Send(describe_command(next)),
        )
    } else if s.root + 1 < s.roots.len() {
        let next = s.roots[s.root as int + 1];
        (
            ScanState { phase: ScanPhase::Describing, root: s.root + 1, current: next, ..s },
            ScanCommand::Send(describe_command(next)),
        )
    } else {
        (ScanState { phase: ScanPhase::Finished, root: s.roots.len(), ..s }, ScanCommand::Done)
    }
}

/// What a pending query asks for.
#[derive(Clone, Copy, Debug, PartialEq, Eq, Structural)]
pub enum Query {
    /// The list of variables.
    List,
    /// The type of the current symbol.
    Describe,
    /// The size of the current symbol.
    Size,
    /// The address of the current symbol.
    Address,
}

/// The query that is pending in a phase, if one is.
pub open spec fn pending(phase: ScanPhase) -> Option<Query> {
    match phase {
        ScanPhase::Listing => Some(Query::List),
        ScanPhase::Describing => Some(Query::Describe),
        ScanPhase::Sizing => Some(Query::Size),
        ScanPhase::Locating => Some(Query::Address),
        _ => None,
    }
}

/// A query is pending.
pub open spec fn is_scanning(phase: ScanPhase) -> bool {
    pending(phase) is Some
}

/// What a reply tells the scan.
#[derive(Debug)]
pub enum Finding {
    /// The top-level symbols of the image.
    Roots(Vec<String>),
    /// The current symbol has nothing left to expand. It is of this type, or
    /// of none that the scan can use.
    Leaf(Option<String>),
    /// The current symbol gives way to these members.
    Members(Vec<String>),
    /// The size of the current symbol, if the reply states one.
    Size(Option<usize>),
    /// The address of the current symbol, if the reply states one.
    Address(Option<u64>),
    /// The query failed for want of a working session.
    Broken(Error),
}

/// What a `Finding` stands for.
pub enum FindingSpec {
    Roots(Seq<Seq<char>>),
    Leaf(Option<Seq<char>>),
    Members(Seq<Seq<char>>),
    Size(Option<usize>),
    Address(Option<u64>),
    Broken,
}

impl View for Finding {
    type V = FindingSpec;

    open spec fn view(&self) -> FindingSpec {
        match self {
            Finding::Roots(names) => FindingSpec::Roots(texts_of(names@)),
            Finding::Leaf(found) => FindingSpec::Leaf(
                match found {
                    Some(text) => Some(text@),
                    None => None,
                },
            ),
            Finding::Members(names) => FindingSpec::Members(texts_of(names@)),
            Finding::Size(size) => FindingSpec::Size(*size),
            Finding::Address(address) => FindingSpec::Address(*address),
            Finding::Broken(_) => FindingSpec::Broken,
        }
    }
}

/// The address that the reply to an address query gives, if it gives one
/// that can be read.
pub open spec fn address_in(lines: Seq<Seq<char>>) -> Option<u64> {
    match first_capture(ADDRESS_PATTERN@, lines) {
        Some(text) => address_value(text),
        None => None,
    }
}

/// The type that a reply names for a leaf: the first thing it lists.
pub open spec fn leaf_type_in(lines: Seq<Seq<char>>) -> Option<Seq<char>> {
    match listed_in(lines) {
        Some(listed) if listed.len() > 0 => Some(listed[0]),
        _ => None,
    }
}

/// What the reply to `query` about the symbol `current` tells. `None`
/// stands for a query that failed.
pub open spec fn finding_in(query: Query, current: Seq<char>, reply: Option<Seq<Seq<char>>>)
    -> FindingSpec {
    match reply {
        None => FindingSpec::Broken,
        Some(lines) => match query {
            Query::List => FindingSpec::Roots(captures_in(NAME_PATTERN@, lines)),
            Query::Describe => if is_expanded(lines) {
                FindingSpec::Leaf(leaf_type_in(lines))
            } else {
                FindingSpec::Members(expansion(current, lines))
            },
            Query::Size => FindingSpec::Size(size_in(lines)),
            Query::Address => FindingSpec::Address(address_in(lines)),
        },
    }
}

/// The query that is pending in a state, as it was sent.
pub open spec fn pending_command(s: ScanState) -> Seq<char> {
    match s.phase {
        ScanPhase::Listing => LIST_COMMAND@,
        ScanPhase::Describing => describe_command(s.current),
        ScanPhase::Sizing => size_command(s.current),
        _ => address_command(s.current),
    }
}

/// Takes the top-level symbols: the first of them is described first, and
/// without any the scan is finished.
pub open spec fn on_roots(s: ScanState, roots: Seq<Seq<char>>) -> (ScanState, ScanCommand) {
    if roots.len() == 0 {
        (ScanState { phase: ScanPhase::Finished, roots, root: 0, ..s }, ScanCommand::Done)
    } else {
        (
            ScanState { phase: ScanPhase::Describing, roots, root: 0, current: roots[0], ..s },
            ScanCommand::Send(describe_command(roots[0])),
        )
    }
}

/// Takes the type of a leaf: with a type its size is asked for next,
/// without one the symbol is passed over.
pub open spec fn on_leaf(s: ScanState, found: Option<Seq<char>>) -> (ScanState, ScanCommand) {
    match found {
        Some(text) => (
            ScanState { phase: ScanPhase::Sizing, current_type: text, ..s },
            ScanCommand::Send(size_command(s.current)),
        ),
        None => advance(s),
    }
}

/// Takes the members that the current symbol gives way to. They are
/// described before anything else, the first of them first.
pub open spec fn on_members(s: ScanState, members: Seq<Seq<char>>) -> (ScanState, ScanCommand) {
    advance(ScanState { stack: s.stack + members.reverse(), ..s })
}

/// Takes the size of the current symbol: with a size the address is asked
/// for next, without one the symbol is passed over.
pub open spec fn on_size(s: ScanState, size: Option<usize>) -> (ScanState, ScanCommand) {
    match size {
        Some(bytes) => (
            ScanState { phase: ScanPhase::Locating, current_size: bytes, ..s },
            ScanCommand::Send(address_command(s.current)),
        ),
        None => advance(s),
    }
}

/// Takes the address of the current symbol: with an address the symbol
/// enters the catalog, without one it is passed over.
pub open spec fn on_address(s: ScanState, address: Option<u64>) -> (ScanState, ScanCommand) {
    match address {
        Some(place) => advance(
            ScanState {
                catalog: s.catalog.push(
                    VariableSpec {
                        name: s.current,
                        types: s.current_type,
                        address: place,
                        size: s.current_size,
                    },
                ),
                ..s
            },
        ),
        None => advance(s),
    }
}

/// The state after a finding, and what to do next. Outside a scan a finding
/// changes nothing. A broken session ends the scan. A finding that does not
/// answer the pending query changes nothing either, and the query is asked
/// again.
pub open spec fn apply_finding(s: ScanState, finding: FindingSpec) -> (ScanState, ScanCommand) {
    if !is_scanning(s.phase) {
        (s, ScanCommand::Done)
    } else {
        match (finding, s.phase) {
            (FindingSpec::Broken, _) => (
                ScanState { phase: ScanPhase::Failed, ..s },
                ScanCommand::Abort,
            ),
            (FindingSpec::Roots(roots), ScanPhase::Listing) => on_roots(s, roots),
            (FindingSpec::Leaf(found), ScanPhase::Describing) => on_leaf(s, found),
            (FindingSpec::Members(members), ScanPhase::Describing) => on_members(s, members),
            (FindingSpec::Size(size), ScanPhase::Sizing) => on_size(s, size),
            (FindingSpec::Address(address), ScanPhase::Locating) => on_address(s, address),
            _ => (s, ScanCommand::Send(pending_command(s))),
        }
    }
}

/// The lines of a reply, or `None` for a query that failed.
pub open spec fn reply_lines(reply: Result<Vec<String>, Error>) -> Option<Seq<Seq<char>>> {
    match reply {
        Ok(lines) => Some(texts_of(lines@)),
        Err(_) => None,
    }
}

/// The state after the reply to the pending query, and what to do next.
/// `None` stands for a query that failed. Outside a scan a reply changes
/// nothing.
pub open spec fn step(s: ScanState, reply: Option<Seq<Seq<char>>>) -> (ScanState, ScanCommand) {
    match pending(s.phase) {
        Some(query) => apply_finding(s, finding_in(query, s.current, reply)),
        None => (s, ScanCommand::Done),
    }
}

/// What holds of every state that a scan reaches: while a symbol is worked
/// on, some top-level symbol is unfinished; once the scan is finished, all
/// are.
pub open spec fn consistent(s: ScanState) -> bool {
    &&& s.root <= s.roots.len()
    &&& s.phase == ScanPhase::Describing || s.phase == ScanPhase::Sizing || s.phase
        == ScanPhase::Locating ==> s.root < s.roots.len()
    &&& s.phase == ScanPhase::Finished ==> s.root == s.roots.len()
    &&& s.phase == ScanPhase::Idle || s.phase == ScanPhase::Listing ==> s.roots.len() == 0
    &&& s.phase == ScanPhase::Failed ==> s.root < s.roots.len() || s.roots.len() == 0
}

/// The progress that a state shows: the finished top-level symbols out of
/// all of them.
pub open spec fn progress_of(s: ScanState) -> ScanProgress {
    ScanProgress {
        done: s.root as usize,
        total: s.roots.len() as usize,
        complete: s.phase == ScanPhase::Finished,
    }
}

/// A finding keeps a state consistent.
pub proof fn lemma_finding_consistent(s: ScanState, finding: FindingSpec)
    requires
        consistent(s),
    ensures
        consistent(apply_finding(s, finding).0),
{
}

/// Progress never goes back, whatever is found, and it is full exactly when
/// the catalog is ready: from then on neither the catalog nor the progress
/// changes.
pub proof fn lemma_progress_monotone(s: ScanState, finding: FindingSpec)
    requires
        consistent(s),
        s.roots.len() <= usize::MAX,
    ensures
        progress_of(s).well_formed(),
        progress_of(apply_finding(s, finding).0).well_formed(),
        s.phase != ScanPhase::Listing ==> progress_of(apply_finding(s, finding).0).not_behind(
            progress_of(s),
        ) && apply_finding(s, finding).0.roots == s.roots,
        s.phase == ScanPhase::Finished ==> apply_finding(s, finding) == (s, ScanCommand::Done),
        apply_finding(s, finding).1 is Send <==> is_scanning(apply_finding(s, finding).0.phase),
        apply_finding(s, finding).0.phase == ScanPhase::Failed <==> s.phase == ScanPhase::Failed
            || (is_scanning(s.phase) && finding is Broken),
        forall|k: int|
            0 <= k < s.catalog.len() ==> k < apply_finding(s, finding).0.catalog.len()
                && apply_finding(s, finding).0.catalog[k] == #[trigger] s.catalog[k],
{
}

/// A reply that shows the current symbol expanded is read as a leaf, and a
/// leaf is never replaced by members: nothing is added to the symbols that
/// wait to be described.
pub proof fn lemma_expanded_schedules_nothing(
    s: ScanState,
    lines: Seq<Seq<char>>,
    found: Option<Seq<char>>,
)
    requires
        s.phase == ScanPhase::Describing,
    ensures
        is_expanded(lines) ==> finding_in(Query::Describe, s.current, Some(lines)) is Leaf,
        ({
            let after = apply_finding(s, FindingSpec::Leaf(found)).0;
            after.stack == s.stack || after.stack == s.stack.drop_last()
        }),
{
}

/// Every member that a reply puts in the place of the current symbol bears
/// a name that no segment of the current symbol's dotted path bears.
pub proof fn lemma_scheduled_members_are_new(current: Seq<char>, lines: Seq<Seq<char>>, k: int)
    requires
        finding_in(Query::Describe, current, Some(lines)) matches FindingSpec::Members(members)
            && 0 <= k < members.len(),
    ensures
        exists|child: Seq<char>|
            #![trigger dotted(current, child)]
            finding_in(Query::Describe, current, Some(lines))->Members_0[k] == dotted(
                current,
                child,
            ) && !split_on(current, '.').contains(child),
{
    let listed = listed_in(lines)->Some_0;
    lemma_children_are_new(current, listed, k);
}

/// Puts `items` onto `stack` so that the first of them comes off first.
fn push_reversed(stack: &mut Vec<String>, items: Vec<String>)
    ensures
        texts_of(final(stack)@) == texts_of(old(stack)@) + texts_of(items@).reverse(),
{
    let ghost all = texts_of(items@);
    let ghost base = texts_of(stack@);
    let mut items = items;
    while items.len() > 0
        invariant
            items.len() <= all.len(),
            texts_of(items@) == all.take(items.len() as int),
            texts_of(stack@) == base + all.reverse().take(all.len() - items.len()),
        decreases items.len(),
    {
        let ghost before = stack@;
        let ghost rest = items@;
        let n = items.len();
        let item = items.pop().unwrap();
        assert(texts_of(rest)[n - 1] == item@);
        stack.push(item);
        assert(texts_of(stack@) =~= texts_of(before).push(item@));
    }
}

/// A scan of the variables of a firmware image through a debugger session.
///
/// The scan decides what to ask; its owner asks. `scan_variables_none_blocking_start`
/// gives the first query, `on_reply` takes each reply and gives the next
/// query, until it answers `Done` and the catalog is ready.
pub struct GdbParser {
    phase: ScanPhase,
    roots: Vec<String>,
    root: usize,
    stack: Vec<String>,
    current: String,
    current_type: String,
    current_size: usize,
    variable_list: Vec<VariableInfo>,
}

impl View for GdbParser {
    type V = ScanState;

    closed spec fn view(&self) -> ScanState {
        ScanState {
            phase: self.phase,
            roots: texts_of(self.roots@),
            root: self.root as nat,
            stack: texts_of(self.stack@),
            current: self.current@,
            current_type: self.current_type@,
            current_size: self.current_size,
            catalog: catalog_view(self.variable_list@),
        }
    }
}

impl GdbParser {
    /// The scan is in a state that `launch` and its methods lead to.
    pub open spec fn wf(&self) -> bool {
        consistent(self@)
    }

    /// A scan that has not been started.
    pub fn launch() -> (r: GdbParser)
        ensures
            r.wf(),
            r@ == idle(),
    {
        let r = GdbParser {
            phase: ScanPhase::Idle,
            roots: Vec::new(),
            root: 0,
            stack: Vec::new(),
            current: String::new(),
            current_type: String::new(),
            current_size: 0,
            variable_list: Vec::new(),
        };
        proof {
            assert(texts_of(r.roots@) =~= Seq::<Seq<char>>::empty());
            assert(catalog_view(r.variable_list@) =~= Seq::<VariableSpec>::empty());
        }
        r
    }

    /// The two settings to send once at the start of a session, which keep
    /// methods and typedefs out of the type descriptions.
    pub fn set_options() -> (r: Vec<String>)
        ensures
            texts_of(r@) == seq![
                "set print type methods off"@,
                "set print type typedefs off"@,
            ],
    {
        let mut options: Vec<String> = Vec::new();
        options.push(String::from_str("set print type methods off"));
        options.push(String::from_str("set print type typedefs off"));
        options
    }

    /// Whether a symbol has members left to query, judged by the reply to its
    /// describe-type query: it has none when the reply has exactly three lines.
    /// A query that failed leaves the question open, so the answer is yes.
    pub fn check_expanded(reply: &Result<Vec<String>, Error>) -> (r: bool)
        ensures
            r == match reply {
                Ok(lines) => !is_expanded(texts_of(lines@)),
                Err(_) => true,
            },
    {
        match reply {
            Ok(lines) => lines.len() != 3,
            Err(_) => true,
        }
    }

    /// What the reply to a describe-type query lists: the names of the members
    /// or the type's own name; nothing for pointers, enumerations and
    /// constants; `ParseError` for a reply of a single line.
    pub fn get_variable_types(input: &Vec<String>) -> (r: Result<Vec<String>, Error>)
        ensures
            match listed_in(texts_of(input@)) {
                Some(listed) => r matches Ok(list) && texts_of(list@) == listed,
                None => r matches Err(Error::ParseError),
            },
    {
        match reply_shape(input) {
            ReplyShape::Malformed => Err(Error::ParseError),
            ReplyShape::Empty | ReplyShape::Opaque => {
                let nothing: Vec<String> = Vec::new();
                Ok(nothing)
            },
            ReplyShape::Open => {
                let vari_list = extract_variable_names(input);
                let valtype = if vari_list.len() == 0 {
                    extract_variable_type(input)
                } else {
                    None
                };
                Ok(listing_of(vari_list, valtype))
            },
        }
    }

    /// The symbols that take the place of `symbol`, given the reply to its
    /// describe-type query.
    pub fn expand_symbol(symbol: &str, reply: &Vec<String>) -> (r: Vec<String>)
        ensures
            texts_of(r@) == expansion(symbol@, texts_of(reply@)),
    {
        if reply.len() == 3 {
            let mut kept: Vec<String> = Vec::new();
            kept.push(String::from_str(symbol));
            kept
        } else {
            match Self::get_variable_types(reply) {
                Ok(listed) => make_children(symbol, &listed),
                Err(_) => {
                    let nothing: Vec<String> = Vec::new();
                    nothing
                },
            }
        }
    }

    /// The names of the top-level variables that the reply to the list query
    /// declares.
    pub fn get_variable_list(reply: &Vec<String>) -> (r: Vec<String>)
        ensures
            texts_of(r@) == captures_in(NAME_PATTERN@, texts_of(reply@)),
    {
        extract_variable_names(reply)
    }

    /// The address that the reply to an address query prints: `Ok(None)`
    /// where no line prints one, `ParseError` where the first line that does
    /// prints more than 64 bits hold.
    pub fn get_variable_address(reply: &Vec<String>) -> (r: Result<Option<u64>, Error>)
        ensures
            match first_capture(ADDRESS_PATTERN@, texts_of(reply@)) {
                None => r matches Ok(None),
                Some(text) => match address_value(text) {
                    Some(address) => r matches Ok(Some(a)) && a == address,
                    None => r matches Err(Error::ParseError),
                },
            },
    {
        match capture_first(ADDRESS_PATTERN, reply) {
            None => Ok(None),
            Some(text) => match parse_address(text.as_str()) {
                Some(address) => Ok(Some(address)),
                None => Err(Error::ParseError),
            },
        }
    }

    /// Starts a scan, dropping whatever an earlier one found, and gives the
    /// query that lists the variables.
    pub fn scan_variables_none_blocking_start(&mut self) -> (action: ScanAction)
        ensures
            final(self).wf(),
            (final(self)@, action@) == started(),
    {
        self.phase = ScanPhase::Listing;
        self.roots = Vec::new();
        self.root = 0;
        self.stack = Vec::new();
        self.current = String::new();
        self.current_type = String::new();
        self.current_size = 0;
        self.variable_list = Vec::new();
        proof {
            assert(texts_of(self.roots@) =~= Seq::<Seq<char>>::empty());
            assert(catalog_view(self.variable_list@) =~= Seq::<VariableSpec>::empty());
        }
        ScanAction::Send(String::from_str(LIST_COMMAND))
    }

    /// Leaves the current symbol and turns to the next one.
    fn next_symbol(&mut self) -> (action: ScanAction)
        requires
            old(self).root < old(self).roots.len() || old(self).stack.len() > 0,
        ensures
            (final(self)@, action@) == advance(old(self)@),
    {
        if self.stack.len() > 0 {
            let ghost before = self.stack@;
            let next = self.stack.pop().unwrap();
            proof {
                assert(texts_of(self.stack@) =~= texts_of(before).drop_last());
            }
            let command = make_describe_command(next.as_str());
            self.current = next;
            self.phase = ScanPhase::Describing;
            ScanAction::Send(command)
        } else if self.root + 1 < self.roots.len() {
            self.root = self.root + 1;
            let next = self.roots[self.root].clone();
            let command = make_describe_command(next.as_str());
            self.current = next;
            self.phase = ScanPhase::Describing;
            ScanAction::Send(command)
        } else {
            self.root = self.roots.len();
            self.phase = ScanPhase::Finished;
            ScanAction::Done
        }
    }

    /// Takes what a reply told and gives the next query.
    ///
    /// A symbol without a type, a size or an address is passed over. A
    /// broken session ends the scan: the error is handed back in `Abort`.
    /// Outside a scan the finding is dropped, and one that does not answer
    /// the pending query has that query asked again.
    pub fn apply(&mut self, finding: Finding) -> (action: ScanAction)
        requires
            old(self).wf(),
        ensures
            final(self).wf(),
            (final(self)@, action@) == apply_finding(old(self)@, finding@),
            is_scanning(old(self)@.phase) ==> (finding matches Finding::Broken(e) ==> action
                == ScanAction::Abort(e)),
    {
        match self.phase {
            ScanPhase::Idle | ScanPhase::Finished | ScanPhase::Failed => {
                return ScanAction::Done;
            },
            _ => {},
        }
        match finding {
            Finding::Broken(e) => {
                self.phase = ScanPhase::Failed;
                ScanAction::Abort(e)
            },
            Finding::Roots(roots) => {
                if self.phase != ScanPhase::Listing {
                    return self.ask_again();
                }
                if roots.len() == 0 {
                    self.roots = roots;
                    self.root = 0;
                    self.phase = ScanPhase::Finished;
                    ScanAction::Done
                } else {
                    let first = roots[0].clone();
                    let command = make_describe_command(first.as_str());
                    self.roots = roots;
                    self.root = 0;
                    self.current = first;
                    self.phase = ScanPhase::Describing;
                    ScanAction::Send(command)
                }
            },
            Finding::Leaf(found) => {
                if self.phase != ScanPhase::Describing {
                    return self.ask_again();
                }
                match found {
                    Some(text) => {
                        self.current_type = text;
                        self.phase = ScanPhase::Sizing;
                        ScanAction::Send(make_size_command(self.current.as_str()))
                    },
                    None => self.next_symbol(),
                }
            },
            Finding::Members(members) => {
                if self.phase != ScanPhase::Describing {
                    return self.ask_again();
                }
                push_reversed(&mut self.stack, members);
                self.next_symbol()
            },
            Finding::Size(size) => {
                if self.phase != ScanPhase::Sizing {
                    return self.ask_again();
                }
                match size {
                    Some(bytes) => {
                        self.current_size = bytes;
                        self.phase = ScanPhase::Locating;
                        ScanAction::Send(make_address_command(self.current.as_str()))
                    },
                    None => self.next_symbol(),
                }
            },
            Finding::Address(address) => {
                if self.phase != ScanPhase::Locating {
                    return self.ask_again();
                }
                match address {
                    Some(place) => {
                        let ghost before = self.variable_list@;
                        let found = VariableInfo {
                            name: self.current.clone(),
                            types: self.current_type.clone(),
                            address: place,
                            size: self.current_size,
                        };
                        self.variable_list.push(found);
                        assert(catalog_view(self.variable_list@) =~= catalog_view(before).push(
                            found@,
                        ));
                        self.next_symbol()
                    },
                    None => self.next_symbol(),
                }
            },
        }
    }

    /// The pending query once more.
    fn ask_again(&self) -> (action: ScanAction)
        requires
            is_scanning(self@.phase),
        ensures
            action@ == ScanCommand::Send(pending_command(self@)),
    {
        match self.phase {
            ScanPhase::Listing => ScanAction::Send(String::from_str(LIST_COMMAND)),
            ScanPhase::Describing => ScanAction::Send(make_describe_command(self.current.as_str())),
            ScanPhase::Sizing => ScanAction::Send(make_size_command(self.current.as_str())),
            _ => ScanAction::Send(make_address_command(self.current.as_str())),
        }
    }

    /// Reads what the reply to `query` about the symbol `current` tells.
    pub fn read_reply(query: Query, current: &str, reply: Result<Vec<String>, Error>) -> (r:
        Finding)
        ensures
            r@ == finding_in(query, current@, reply_lines(reply)),
            reply matches Err(e) ==> r == Finding::Broken(e),
    {
        let lines = match reply {
            Ok(lines) => lines,
            Err(e) => {
                return Finding::Broken(e);
            },
        };
        match query {
            Query::List => Finding::Roots(Self::get_variable_list(&lines)),
            Query::Describe => {
                if lines.len() == 3 {
                    match Self::get_variable_types(&lines) {
                        Ok(listed) => {
                            if listed.len() > 0 {
                                let found = listed[0].clone();
                                Finding::Leaf(Some(found))
                            } else {
                                Finding::Leaf(None)
                            }
                        },
                        Err(_) => Finding::Leaf(None),
                    }
                } else {
                    Finding::Members(Self::expand_symbol(current, &lines))
                }
            },
            Query::Size => match extract_size(&lines) {
                Ok(size) => Finding::Size(Some(size)),
                Err(_) => Finding::Size(None),
            },
            Query::Address => match Self::get_variable_address(&lines) {
                Ok(Some(address)) => Finding::Address(Some(address)),
                _ => Finding::Address(None),
            },
        }
    }

    /// Takes the reply to the pending query and gives the next one.
    ///
    /// A reply that cannot be read costs the scan the symbol it was about. A
    /// query that failed ends the scan: the error is handed back in `Abort`.
    /// Outside a scan the reply is dropped.
    pub fn on_reply(&mut self, reply: Result<Vec<String>, Error>) -> (action: ScanAction)
        requires
            old(self).wf(),
        ensures
            final(self).wf(),
            (final(self)@, action@) == step(old(self)@, reply_lines(reply)),
            is_scanning(old(self)@.phase) ==> (reply matches Err(e) ==> action == ScanAction::Abort(
                e,
            )),
    {
        let query = match self.phase {
            ScanPhase::Listing => Query::List,
            ScanPhase::Describing => Query::Describe,
            ScanPhase::Sizing => Query::Size,
            ScanPhase::Locating => Query::Address,
            _ => {
                return ScanAction::Done;
            },
        };
        let finding = Self::read_reply(query, self.current.as_str(), reply);
        self.apply(finding)
    }

    /// The catalog, once the scan is finished; until then, and after a
    /// failure, the empty list.
    pub fn load_variable_list(&self) -> (r: Vec<VariableInfo>)
        ensures
            catalog_view(r@) == if self@.phase == ScanPhase::Finished {
                self@.catalog
            } else {
                Seq::<VariableSpec>::empty()
            },
    {
        if self.phase == ScanPhase::Finished {
            copy_catalog(&self.variable_list)
        } else {
            let list: Vec<VariableInfo> = Vec::new();
            list
        }
    }

    /// How far the scan has come: the finished top-level symbols out of all
    /// of them.
    pub fn get_scan_progress(&self) -> (r: ScanProgress)
        requires
            self.wf(),
        ensures
            r == progress_of(self@),
            r.well_formed(),
    {
        ScanProgress {
            done: self.root,
            total: self.roots.len(),
            complete: self.phase == ScanPhase::Finished,
        }
    }
}

/// The line is the debugger's prompt, which ends every reply.
pub open spec fn is_prompt(line: Seq<char>) -> bool {
    line == "(gdb) \n"@ || line == "(gdb) \r\n"@
}

/// The text to write to the debugger for the command `cmd`: the command
/// followed by a line feed, unless it ends with one already.
pub open spec fn command_line(cmd: Seq<char>) -> Seq<char> {
    if cmd.len() > 0 && cmd.last() == '\n' {
        cmd
    } else {
        cmd.push('\n')
    }
}

/// The text to write to the debugger for the command `cmd`.
pub fn send_cmd_raw(cmd: &str) -> (r: String)
    ensures
        r@ == command_line(cmd@),
{
    let chars = chars_of(cmd);
    if chars.len() > 0 && chars[chars.len() - 1] == '\n' {
        String::from_str(cmd)
    } else {
        proof {
            reveal_strlit("\n");
        }
        String::from_str(cmd).concat("\n")
    }
}

/// Gathers the lines of one reply.
pub struct ReplyReader {
    lines: Vec<String>,
}

impl View for ReplyReader {
    type V = Seq<Seq<char>>;

    closed spec fn view(&self) -> Seq<Seq<char>> {
        texts_of(self.lines@)
    }
}

impl ReplyReader {
    /// A reader that has seen no line.
    pub fn new() -> (r: ReplyReader)
        ensures
            r@.len() == 0,
    {
        let r = ReplyReader { lines: Vec::new() };
        r
    }

    /// Takes the next line that the debugger printed and tells whether the
    /// reply is complete. The prompt completes the reply and is not part of
    /// it. An empty line, which is what the end of the debugger's output
    /// reads as, is kept and completes the reply too.
    pub fn read_sequence(&mut self, line: String) -> (complete: bool)
        ensures
            is_prompt(line@) ==> complete && final(self)@ == old(self)@,
            !is_prompt(line@) ==> final(self)@ == old(self)@.push(line@) && complete == (line@.len()
                == 0),
    {
        let chars = chars_of(line.as_str());
        if is_literal(&chars, "(gdb) \n") || is_literal(&chars, "(gdb) \r\n") {
            return true;
        }
        let complete = chars.len() == 0;
        self.lines.push(line);
        complete
    }

    /// The lines gathered.
    pub fn into_reply(self) -> (r: Vec<String>)
        ensures
            texts_of(r@) == self@,
    {
        self.lines
    }
}

} // verus!
