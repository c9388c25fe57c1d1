//! What a provider's own metadata says of its events, turned into
//! definitions: names for codes, names for keyword bits, and fields read
//! from a template.

use crate::assoc::{
    last_index, lemma_absent, lemma_last_index_is, lemma_lookup, lemma_push, lemma_update,
    pairs_map,
};
use crate::formatting::{EvtVariant, VariantView};
use crate::metadata::{
    clone_versions, event_pairs, events_view, fields_of, find_event, find_version, opt_text,
    texts_of, version_pairs, versions_view, DefinitionView, EventDefinition, EventEntry,
    EventFieldDefinition, FieldView, VersionEntry,
};
use crate::text::{from_chars, hexadecimal, number_chars, push_all, same_text};
use vstd::prelude::*;
use vstd::string::*;

verus! {

/// The tables of codes that the operating system defines for all
/// providers.
#[derive(Clone, Copy, Debug, PartialEq, Eq, Structural)]
pub enum StandardTable {
    Channels,
    Levels,
    Tasks,
    Opcodes,
}

/// The name and the description that the operating system gives to a
/// code, if it defines the code.
pub open spec fn standard_value(table: StandardTable, val: u32) -> Option<(Seq<char>, Seq<char>)> {
    match table {
        StandardTable::Channels => if val == 0 {
            Some(("TraceClassic"@, "Events for Classic ETW tracing"@))
        } else if val == 8 {
            Some(
                (
                    "System"@,
                    "Events for all installed system services.  This channel is secured to applications running under system service accounts or user applications running under local adminstrator privileges"@,
                ),
            )
        } else if val == 9 {
            Some(
                (
                    "Application"@,
                    "Events for all user-level applications. This channel is not secured and open to any applications. Applications which log extensive information should define an application-specific channel"@,
                ),
            )
        } else if val == 10 {
            Some(
                (
                    "Security"@,
                    "The Windows Audit Log.  For exclusive use of the Windows Local Security Authority. User events may appear as audits if supported by the underlying application"@,
                ),
            )
        } else if val == 11 {
            Some(("TraceLogging"@, "Event contains provider traits and TraceLogging event metadata"@))
        } else if val == 12 {
            Some(("ProviderMetadata"@, "Event contains provider traits"@))
        } else {
            None
        },
        StandardTable::Levels => if val == 0 {
            Some(("win:LogAlways"@, "Log Always"@))
        } else if val == 1 {
            Some(("win:Critical"@, "Only critical errors"@))
        } else if val == 2 {
            Some(("win:Error"@, "All errors, includes win:Critical"@))
        } else if val == 3 {
            Some(("win:Warning"@, "All warnings, includes win:Error"@))
        } else if val == 4 {
            Some(("win:Informational"@, "All informational content, including win:Warning"@))
        } else if val == 5 {
            Some(("win:Verbose"@, "All tracing, including previous levels"@))
        } else {
            None
        },
        StandardTable::Tasks => if val == 0 {
            Some(("win:None"@, "undefined task"@))
        } else {
            None
        },
        StandardTable::Opcodes => if val == 0 {
            Some(("win:None"@, "An informational event"@))
        } else if val == 1 {
            Some(("win:Start"@, "An activity start event"@))
        } else if val == 2 {
            Some(("win:Stop"@, "An activity end event"@))
        } else if val == 3 {
            Some(("win:DC_Start"@, "A trace collection start event"@))
        } else if val == 4 {
            Some(("win:DC_Stop"@, "A trace collection end event"@))
        } else if val == 5 {
            Some(("win:Extension"@, "An extensional event"@))
        } else if val == 6 {
            Some(("win:Reply"@, "A reply event"@))
        } else if val == 7 {
            Some(
                ("win:Resume"@, "An event representing the activity resuming from the suspension"@),
            )
        } else if val == 8 {
            Some(
                (
                    "win:Suspend"@,
                    "An event representing the activity is suspended, pending another activity's completion"@,
                ),
            )
        } else if val == 9 {
            Some(
                (
                    "win:Send"@,
                    "An event representing the activity is transferred to another component, and can continue to work"@,
                ),
            )
        } else {
            None
        },
    }
}

/// The views of an optional pair of string slices.
pub open spec fn pair_view(p: Option<(&'static str, &'static str)>) -> Option<
    (Seq<char>, Seq<char>),
> {
    match p {
        Some((name, description)) => Some((name@, description@)),
        None => None,
    }
}

/// Looks a code up in one of the operating system's tables.
pub fn get_system_standard_val(table: StandardTable, val: u32) -> (r: Option<
    (&'static str, &'static str),
>)
    ensures
        pair_view(r) == standard_value(table, val),
{
    match table {
        StandardTable::Channels => if val == 0 {
            Some(("TraceClassic", "Events for Classic ETW tracing"))
        } else if val == 8 {
            Some(
                (
                    "System",
                    "Events for all installed system services.  This channel is secured to applications running under system service accounts or user applications running under local adminstrator privileges",
                ),
            )
        } else if val == 9 {
            Some(
                (
                    "Application",
                    "Events for all user-level applications. This channel is not secured and open to any applications. Applications which log extensive information should define an application-specific channel",
                ),
            )
        } else if val == 10 {
            Some(
                (
                    "Security",
                    "The Windows Audit Log.  For exclusive use of the Windows Local Security Authority. User events may appear as audits if supported by the underlying application",
                ),
            )
        } else if val == 11 {
            Some(("TraceLogging", "Event contains provider traits and TraceLogging event metadata"))
        } else if val == 12 {
            Some(("ProviderMetadata", "Event contains provider traits"))
        } else {
            None
        },
        StandardTable::Levels => if val == 0 {
            Some(("win:LogAlways", "Log Always"))
        } else if val == 1 {
            Some(("win:Critical", "Only critical errors"))
        } else if val == 2 {
            Some(("win:Error", "All errors, includes win:Critical"))
        } else if val == 3 {
            Some(("win:Warning", "All warnings, includes win:Error"))
        } else if val == 4 {
            Some(("win:Informational", "All informational content, including win:Warning"))
        } else if val == 5 {
            Some(("win:Verbose", "All tracing, including previous levels"))
        } else {
            None
        },
        StandardTable::Tasks => if val == 0 {
            Some(("win:None", "undefined task"))
        } else {
            None
        },
        StandardTable::Opcodes => if val == 0 {
            Some(("win:None", "An informational event"))
        } else if val == 1 {
            Some(("win:Start", "An activity start event"))
        } else if val == 2 {
            Some(("win:Stop", "An activity end event"))
        } else if val == 3 {
            Some(("win:DC_Start", "A trace collection start event"))
        } else if val == 4 {
            Some(("win:DC_Stop", "A trace collection end event"))
        } else if val == 5 {
            Some(("win:Extension", "An extensional event"))
        } else if val == 6 {
            Some(("win:Reply", "A reply event"))
        } else if val == 7 {
            Some(("win:Resume", "An event representing the activity resuming from the suspension"))
        } else if val == 8 {
            Some(
                (
                    "win:Suspend",
                    "An event representing the activity is suspended, pending another activity's completion",
                ),
            )
        } else if val == 9 {
            Some(
                (
                    "win:Send",
                    "An event representing the activity is transferred to another component, and can continue to work",
                ),
            )
        } else {
            None
        },
    }
}

/// A code and the name that a provider gives it.
#[derive(Debug, PartialEq, Eq)]
pub struct NameEntry {
    pub code: u64,
    pub name: String,
}

/// Codes and names, as pairs.
pub open spec fn name_pairs(s: Seq<NameEntry>) -> Seq<(u64, Seq<char>)> {
    Seq::new(s.len(), |i: int| (s[i].code, s[i].name@))
}

/// The names of a provider's codes. Where a code occurs more than once,
/// its last entry counts.
pub open spec fn names_view(s: Seq<NameEntry>) -> Map<u64, Seq<char>> {
    pairs_map(name_pairs(s))
}

/// The position of the entry that counts for a code, if there is one.
pub fn find_name(entries: &Vec<NameEntry>, code: u64) -> (r: Option<usize>)
    ensures
        r is Some <==> names_view(entries@).dom().contains(code),
        r matches Some(i) ==> i < entries@.len() && entries@[i as int].code == code && names_view(
            entries@,
        )[code] == entries@[i as int].name@ && last_index(name_pairs(entries@), code) == i,
{
    let ghost pairs = name_pairs(entries@);
    let mut i: usize = entries.len();
    while i > 0
        invariant
            i <= entries.len(),
            pairs == name_pairs(entries@),
            forall|j: int| i <= j < entries.len() ==> (#[trigger] pairs[j]).0 != code,
        decreases i,
    {
        i -= 1;
        if entries[i].code == code {
            proof {
                lemma_last_index_is(pairs, code, i as int);
                lemma_lookup(pairs, code);
            }
            return Some(i);
        }
    }
    proof {
        lemma_absent(pairs, code);
    }
    None
}

/// One item of a provider's list of codes and names, as it was read:
/// `None` stands for a value that could not be read.
#[derive(Debug, PartialEq, Eq)]
pub struct MappingItem {
    pub key: Option<EvtVariant>,
    pub value: Option<EvtVariant>,
}

/// The code and the name of an item, where its key is an unsigned number
/// and its value a text.
pub open spec fn mapping_pair(item: MappingItem) -> Option<(u64, Seq<char>)> {
    match (item.key, item.value) {
        (Some(EvtVariant::UInt(code)), Some(EvtVariant::String(name))) => Some((code, name@)),
        _ => None,
    }
}

/// The number of items at the start of the list that have a code and a
/// name, counted among the first `n`.
pub open spec fn usable_items(items: Seq<MappingItem>, n: int) -> int
    decreases n,
{
    if n <= 0 {
        0
    } else {
        let before = usable_items(items, n - 1);
        if before == n - 1 && mapping_pair(items[n - 1]) is Some {
            n
        } else {
            before
        }
    }
}

/// The names that a provider's list gives to its codes: those of the
/// items up to the first one that has no code or no name.
pub open spec fn mapping_of(items: Seq<MappingItem>) -> Seq<(u64, Seq<char>)> {
    Seq::new(usable_items(items, items.len() as int) as nat, |i: int| mapping_pair(items[i])->0)
}

/// After an item without code or name, no further item is used.
pub proof fn lemma_usable_items_stop(items: Seq<MappingItem>, n: int, m: int)
    requires
        0 <= n <= m <= items.len(),
        usable_items(items, n) < n,
    ensures
        usable_items(items, m) == usable_items(items, n),
    decreases m - n,
{
    if n < m {
        lemma_usable_items_stop(items, n, m - 1);
    }
}

/// Collects the names that a provider gives to its codes, up to the
/// first item that is not a number with a text.
pub fn get_evt_prov_metadata_mapping(items: &Vec<MappingItem>) -> (r: Vec<NameEntry>)
    ensures
        name_pairs(r@) == mapping_of(items@),
{
    let mut mapping: Vec<NameEntry> = Vec::new();
    let mut i: usize = 0;
    let mut stopped: bool = false;
    while i < items.len() && !stopped
        invariant
            i <= items.len(),
            !stopped ==> usable_items(items@, i as int) == i,
            stopped ==> usable_items(items@, items@.len() as int) == mapping@.len(),
            !stopped ==> mapping@.len() == i,
            forall|k: int|
                0 <= k < mapping@.len() ==> Some((mapping@[k].code, mapping@[k].name@))
                    == #[trigger] mapping_pair(items@[k]),
        decreases items.len() - i, if stopped { 0int } else { 1int },
    {
        let item = &items[i];
        match (&item.key, &item.value) {
            (Some(EvtVariant::UInt(code)), Some(EvtVariant::String(name))) => {
                mapping.push(NameEntry { code: *code, name: name.clone() });
                i += 1;
            },
            _ => {
                proof {
                    assert(mapping_pair(items@[i as int]) is None);
                    assert(usable_items(items@, i + 1) == i);
                    lemma_usable_items_stop(items@, i + 1, items@.len() as int);
                }
                stopped = true;
            },
        }
    }
    assert(name_pairs(mapping@) == mapping_of(items@));
    mapping
}

/// The name of a code: the provider's own name for it where it has one,
/// else the operating system's, else none.
pub open spec fn resolved_name(names: Map<u64, Seq<char>>, table: StandardTable, code: u32)
    -> Option<Seq<char>> {
    if names.dom().contains(code as u64) {
        Some(names[code as u64])
    } else {
        match standard_value(table, code) {
            Some((name, _)) => Some(name),
            None => None,
        }
    }
}

/// Resolves a code to its name.
pub fn resolve_name(names: &Vec<NameEntry>, table: StandardTable, code: u32) -> (r: Option<String>)
    ensures
        crate::metadata::opt_text(r) == resolved_name(names_view(names@), table, code),
{
    match find_name(names, code as u64) {
        Some(i) => Some(names[i].name.clone()),
        None => match get_system_standard_val(table, code) {
            Some((name, _)) => Some(name.to_owned()),
            None => None,
        },
    }
}

/// The number of keyword bits that have names: the bits above are
/// reserved.
pub const KEYWORD_BITS: u32 = 56;

/// The value of a single bit.
pub open spec fn bit_value(bit: u32) -> u64
    recommends
        bit < 64,
{
    1u64 << bit
}

/// The name of a keyword bit: the provider's own where it has one, else
/// the bit's value in hexadecimal after `0x`.
pub open spec fn keyword_name(names: Map<u64, Seq<char>>, bit: u32) -> Seq<char> {
    if names.dom().contains(bit_value(bit)) {
        names[bit_value(bit)]
    } else {
        seq!['0', 'x'] + hexadecimal(bit_value(bit) as nat, true)
    }
}

/// The names of the keyword bits below `n` that are set, lowest first.
pub open spec fn keyword_names_below(names: Map<u64, Seq<char>>, keywords: u64, n: int) -> Seq<
    Seq<char>,
>
    decreases n,
{
    if n <= 0 {
        Seq::empty()
    } else {
        let below = keyword_names_below(names, keywords, n - 1);
        if (bit_value((n - 1) as u32) & keywords) == 0 {
            below
        } else {
            below.push(keyword_name(names, (n - 1) as u32))
        }
    }
}

/// The names of the keywords that a flag set holds: one for each of the
/// low 56 bits that is set.
pub open spec fn keyword_names_of(names: Map<u64, Seq<char>>, keywords: u64) -> Seq<Seq<char>> {
    keyword_names_below(names, keywords, KEYWORD_BITS as int)
}

/// Resolves the bits of a flag set to names.
pub fn keyword_names(names: &Vec<NameEntry>, keywords: u64) -> (r: Vec<String>)
    ensures
        crate::metadata::texts_of(r@) == keyword_names_of(names_view(names@), keywords),
{
    let mut result: Vec<String> = Vec::new();
    let ghost table = names_view(names@);
    let mut bit: u32 = 0;
    while bit < KEYWORD_BITS
        invariant
            bit <= KEYWORD_BITS,
            table == names_view(names@),
            crate::metadata::texts_of(result@) == keyword_names_below(table, keywords, bit as int),
        decreases KEYWORD_BITS - bit,
    {
        let val: u64 = 1u64 << bit;
        let ghost before = crate::metadata::texts_of(result@);
        if (val & keywords) != 0 {
            let name = match find_name(names, val) {
                Some(i) => names[i].name.clone(),
                None => {
                    let mut text: Vec<char> = Vec::new();
                    text.push('0');
                    text.push('x');
                    let digits = number_chars(val, true, true, 0);
                    push_all(&mut text, &digits);
                    assert(text@ == seq!['0', 'x'] + hexadecimal(val as nat, true));
                    from_chars(&text)
                },
            };
            assert(name@ == keyword_name(table, bit));
            result.push(name);
            assert(crate::metadata::texts_of(result@) == before.push(keyword_name(table, bit)));
        }
        bit += 1;
    }
    result
}

/// An attribute of a node of a template.
#[derive(Debug, PartialEq, Eq)]
pub struct XmlAttribute {
    /// The attribute's name, without prefix.
    pub name: String,
    pub value: String,
}

/// A node directly below the root of a template.
#[derive(Debug, PartialEq, Eq)]
pub struct XmlNode {
    /// Whether the node is an element, and not text or a comment.
    pub is_element: bool,
    /// The element's name, without prefix; empty for other nodes.
    pub name: String,
    /// The element's attributes, in the order in which they are written.
    pub attributes: Vec<XmlAttribute>,
}

/// A template as a tree: its root element and the nodes below it.
#[derive(Debug, PartialEq, Eq)]
pub struct XmlTemplate {
    /// The root element's name, without prefix.
    pub root_name: String,
    pub children: Vec<XmlNode>,
}

/// The mathematical content of an [`XmlNode`].
pub struct XmlNodeView {
    pub is_element: bool,
    pub name: Seq<char>,
    pub attributes: Seq<(Seq<char>, Seq<char>)>,
}

/// The mathematical content of an [`XmlTemplate`].
pub struct XmlTemplateView {
    pub root_name: Seq<char>,
    pub children: Seq<XmlNodeView>,
}

impl View for XmlNode {
    type V = XmlNodeView;

    open spec fn view(&self) -> XmlNodeView {
        XmlNodeView {
            is_element: self.is_element,
            name: self.name@,
            attributes: Seq::new(
                self.attributes@.len(),
                |i: int| (self.attributes@[i].name@, self.attributes@[i].value@),
            ),
        }
    }
}

impl View for XmlTemplate {
    type V = XmlTemplateView;

    open spec fn view(&self) -> XmlTemplateView {
        XmlTemplateView {
            root_name: self.root_name@,
            children: Seq::new(self.children@.len(), |i: int| self.children@[i]@),
        }
    }
}

/// The view of an optional template.
pub open spec fn opt_template(t: Option<XmlTemplate>) -> Option<XmlTemplateView> {
    match t {
        Some(t) => Some(t@),
        None => None,
    }
}

/// The tree that a text parses to as XML, or nothing where it is not
/// well-formed.
pub uninterp spec fn xml_tree(text: Seq<char>) -> Option<XmlTemplateView>;

/// `roxmltree::Document::parse`, with the root element and its children
/// copied out through `root_element`, `children`, `is_element`,
/// `tag_name`, `attributes`, and the `name` and `value` of each
/// attribute. The result depends on the text alone, and is absent
/// exactly when the parser refuses the text.
#[verifier::external_body]
fn parse_template(text: &str) -> (r: Option<XmlTemplate>)
    ensures
        opt_template(r) == xml_tree(text@),
{
    let doc = roxmltree::Document::parse(text).ok()?;
    let root = doc.root_element();
    let children = root.children().map(
        |n|
            XmlNode {
                is_element: n.is_element(),
                name: n.tag_name().name().to_owned(),
                attributes: n.attributes().map(
                    |a| XmlAttribute { name: a.name().to_owned(), value: a.value().to_owned() },
                ).collect(),
            },
    ).collect();
    Some(XmlTemplate { root_name: root.tag_name().name().to_owned(), children })
}

/// The position of the first attribute with the given name at or after
/// `from`, or the number of attributes if there is none.
pub open spec fn attribute_index(attributes: Seq<(Seq<char>, Seq<char>)>, name: Seq<char>, from: int)
    -> int
    decreases attributes.len() - from,
{
    if from < 0 || from >= attributes.len() {
        attributes.len() as int
    } else if attributes[from].0 == name {
        from
    } else {
        attribute_index(attributes, name, from + 1)
    }
}

/// The value of the first attribute with the given name, if there is
/// one.
pub open spec fn attribute_value(attributes: Seq<(Seq<char>, Seq<char>)>, name: Seq<char>)
    -> Option<Seq<char>> {
    let i = attribute_index(attributes, name, 0);
    if 0 <= i < attributes.len() {
        Some(attributes[i].1)
    } else {
        None
    }
}

fn attribute(node: &XmlNode, name: &str) -> (r: Option<String>)
    ensures
        opt_text(r) == attribute_value(node@.attributes, name@),
{
    let ghost attributes = node@.attributes;
    let mut i: usize = 0;
    while i < node.attributes.len()
        invariant
            i <= node.attributes.len(),
            attributes == node@.attributes,
            attribute_index(attributes, name@, i as int) == attribute_index(attributes, name@, 0),
        decreases node.attributes.len() - i,
    {
        assert(attributes[i as int] == (node.attributes@[i as int].name@, node.attributes@[i as int].value@));
        if same_text(node.attributes[i].name.as_str(), name) {
            return Some(node.attributes[i].value.clone());
        }
        i += 1;
    }
    None
}

/// The fields read so far from the nodes of a template, and whether
/// reading has stopped.
pub struct FieldsSoFar {
    pub fields: Seq<FieldView>,
    pub stopped: bool,
}

/// The fields after one more node. A `data` element with a `name` and an
/// `outType` is a field. Nodes that are no elements, and `struct`
/// elements, are passed over. Anything else ends the reading.
pub open spec fn fields_after_node(so_far: FieldsSoFar, node: XmlNodeView) -> FieldsSoFar {
    if so_far.stopped || !node.is_element {
        so_far
    } else if node.name != "data"@ {
        if node.name == "struct"@ {
            so_far
        } else {
            FieldsSoFar { fields: so_far.fields, stopped: true }
        }
    } else {
        match (attribute_value(node.attributes, "name"@), attribute_value(
            node.attributes,
            "outType"@,
        )) {
            (Some(name), Some(out_type)) => FieldsSoFar {
                fields: so_far.fields.push(FieldView { name, out_type }),
                stopped: false,
            },
            _ => FieldsSoFar { fields: so_far.fields, stopped: true },
        }
    }
}

/// The fields after the first `n` nodes.
pub open spec fn fields_after_nodes(nodes: Seq<XmlNodeView>, n: int) -> FieldsSoFar
    decreases n,
{
    if n <= 0 {
        FieldsSoFar { fields: Seq::empty(), stopped: false }
    } else {
        fields_after_node(fields_after_nodes(nodes, n - 1), nodes[n - 1])
    }
}

/// The fields that a template declares, or nothing where the template is
/// not well-formed or its root is not a `template` element.
pub open spec fn template_fields(tree: Option<XmlTemplateView>) -> Option<Seq<FieldView>> {
    match tree {
        None => None,
        Some(t) => if t.root_name != "template"@ {
            None
        } else {
            Some(fields_after_nodes(t.children, t.children.len() as int).fields)
        },
    }
}

/// Reads the fields that a parsed template declares.
pub fn fields_from_template(tree: &Option<XmlTemplate>) -> (r: Option<Vec<EventFieldDefinition>>)
    ensures
        r is Some <==> template_fields(opt_template(*tree)) is Some,
        r matches Some(f) ==> template_fields(opt_template(*tree)) == Some(fields_of(f@)),
{
    let template = match tree {
        None => {
            return None;
        },
        Some(t) => t,
    };
    if !same_text(template.root_name.as_str(), "template") {
        return None;
    }
    let ghost nodes = template@.children;
    let mut fields: Vec<EventFieldDefinition> = Vec::new();
    let mut stopped: bool = false;
    let mut i: usize = 0;
    assert(fields_of(fields@) == Seq::<FieldView>::empty());
    while i < template.children.len()
        invariant
            i <= template.children.len(),
            nodes == template@.children,
            fields_after_nodes(nodes, i as int) == (FieldsSoFar {
                fields: fields_of(fields@),
                stopped,
            }),
        decreases template.children.len() - i,
    {
        let node = &template.children[i];
        assert(nodes[i as int] == node@);
        let ghost before = fields_of(fields@);
        if !stopped && node.is_element {
            if !same_text(node.name.as_str(), "data") {
                if !same_text(node.name.as_str(), "struct") {
                    stopped = true;
                }
            } else {
                match (attribute(node, "name"), attribute(node, "outType")) {
                    (Some(name), Some(out_type)) => {
                        fields.push(EventFieldDefinition { name, out_type });
                        assert(fields_of(fields@) == before.push(
                            FieldView { name: name@, out_type: out_type@ },
                        ));
                    },
                    _ => {
                        stopped = true;
                    },
                }
            }
        }
        i += 1;
    }
    Some(fields)
}

/// The properties of one event of a provider, as they were read.
#[derive(Debug, PartialEq, Eq)]
pub struct EventMetadataValues {
    pub event_id: EvtVariant,
    pub version: EvtVariant,
    pub template: EvtVariant,
    pub message_id: EvtVariant,
    pub level: EvtVariant,
    pub opcode: EvtVariant,
    pub task: EvtVariant,
    pub keywords: EvtVariant,
    pub channel: EvtVariant,
}

/// The properties of an event of a provider.
#[derive(Clone, Copy, Debug, PartialEq, Eq, Structural)]
pub enum EventProperty {
    EventID,
    Version,
    Template,
    MessageID,
    Level,
    Opcode,
    Task,
    Keyword,
    Channel,
}

/// The properties of one event of a provider, each of the type it must
/// have.
#[derive(Debug, PartialEq, Eq)]
pub struct EventHeader {
    pub event_id: u64,
    pub version: u64,
    /// The template that declares the event's fields; may be empty.
    pub template: String,
    /// The identifier of the event's message; [`NO_MESSAGE`] where the
    /// event has none.
    pub message_id: u32,
    pub level: u32,
    pub opcode: u32,
    pub task: u32,
    pub keywords: u64,
    pub channel: u32,
}

/// The message identifier of an event or provider without message.
pub const NO_MESSAGE: u32 = 0xffff_ffff;

/// The mathematical content of an [`EventHeader`].
pub struct HeaderView {
    pub event_id: u64,
    pub version: u64,
    pub template: Seq<char>,
    pub message_id: u32,
    pub level: u32,
    pub opcode: u32,
    pub task: u32,
    pub keywords: u64,
    pub channel: u32,
}

impl View for EventHeader {
    type V = HeaderView;

    open spec fn view(&self) -> HeaderView {
        HeaderView {
            event_id: self.event_id,
            version: self.version,
            template: self.template@,
            message_id: self.message_id,
            level: self.level,
            opcode: self.opcode,
            task: self.task,
            keywords: self.keywords,
            channel: self.channel,
        }
    }
}

/// A value as an unsigned number of at most 32 bits, if it is one.
pub open spec fn as_u32(value: VariantView) -> Option<u32> {
    match value {
        VariantView::UInt(u) => if u <= u32::MAX {
            Some(u as u32)
        } else {
            None
        },
        _ => None,
    }
}

/// A value as an unsigned number, if it is one.
pub open spec fn as_u64(value: VariantView) -> Option<u64> {
    match value {
        VariantView::UInt(u) => Some(u),
        _ => None,
    }
}

/// A value as a text, if it is one.
pub open spec fn as_text(value: VariantView) -> Option<Seq<char>> {
    match value {
        VariantView::Text(s) => Some(s),
        _ => None,
    }
}

fn read_u32(value: &EvtVariant) -> (r: Option<u32>)
    ensures
        r == as_u32(value@),
{
    match value {
        EvtVariant::UInt(u) => if *u <= 0xffff_ffff {
            Some(*u as u32)
        } else {
            None
        },
        _ => None,
    }
}

fn read_u64(value: &EvtVariant) -> (r: Option<u64>)
    ensures
        r == as_u64(value@),
{
    match value {
        EvtVariant::UInt(u) => Some(*u),
        _ => None,
    }
}

/// The properties of an event checked for their types, in the order
/// identifier, version, template, message, level, opcode, task,
/// keywords, channel: the first property of another type than it must
/// have is the error.
pub open spec fn event_header(values: EventMetadataValues) -> Result<HeaderView, EventProperty> {
    if as_u64(values.event_id@) is None {
        Err(EventProperty::EventID)
    } else if as_u64(values.version@) is None {
        Err(EventProperty::Version)
    } else if as_text(values.template@) is None {
        Err(EventProperty::Template)
    } else if as_u32(values.message_id@) is None {
        Err(EventProperty::MessageID)
    } else if as_u32(values.level@) is None {
        Err(EventProperty::Level)
    } else if as_u32(values.opcode@) is None {
        Err(EventProperty::Opcode)
    } else if as_u32(values.task@) is None {
        Err(EventProperty::Task)
    } else if as_u64(values.keywords@) is None {
        Err(EventProperty::Keyword)
    } else if as_u32(values.channel@) is None {
        Err(EventProperty::Channel)
    } else {
        Ok(
            HeaderView {
                event_id: as_u64(values.event_id@)->0,
                version: as_u64(values.version@)->0,
                template: as_text(values.template@)->0,
                message_id: as_u32(values.message_id@)->0,
                level: as_u32(values.level@)->0,
                opcode: as_u32(values.opcode@)->0,
                task: as_u32(values.task@)->0,
                keywords: as_u64(values.keywords@)->0,
                channel: as_u32(values.channel@)->0,
            },
        )
    }
}

/// Checks the properties of an event for their types.
pub fn read_event_header(values: &EventMetadataValues) -> (r: Result<EventHeader, EventProperty>)
    ensures
        r is Ok <==> event_header(*values) is Ok,
        r matches Ok(h) ==> event_header(*values) == Ok::<HeaderView, EventProperty>(h@),
        r matches Err(e) ==> event_header(*values) == Err::<HeaderView, EventProperty>(e),
{
    let event_id = match read_u64(&values.event_id) {
        Some(u) => u,
        None => {
            return Err(EventProperty::EventID);
        },
    };
    let version = match read_u64(&values.version) {
        Some(u) => u,
        None => {
            return Err(EventProperty::Version);
        },
    };
    let template = match &values.template {
        EvtVariant::String(s) => s.clone(),
        _ => {
            return Err(EventProperty::Template);
        },
    };
    let message_id = match read_u32(&values.message_id) {
        Some(u) => u,
        None => {
            return Err(EventProperty::MessageID);
        },
    };
    let level = match read_u32(&values.level) {
        Some(u) => u,
        None => {
            return Err(EventProperty::Level);
        },
    };
    let opcode = match read_u32(&values.opcode) {
        Some(u) => u,
        None => {
            return Err(EventProperty::Opcode);
        },
    };
    let task = match read_u32(&values.task) {
        Some(u) => u,
        None => {
            return Err(EventProperty::Task);
        },
    };
    let keywords = match read_u64(&values.keywords) {
        Some(u) => u,
        None => {
            return Err(EventProperty::Keyword);
        },
    };
    let channel = match read_u32(&values.channel) {
        Some(u) => u,
        None => {
            return Err(EventProperty::Channel);
        },
    };
    Ok(
        EventHeader {
            event_id,
            version,
            template,
            message_id,
            level,
            opcode,
            task,
            keywords,
            channel,
        },
    )
}

/// The names that a provider gives to its codes.
#[derive(Debug, PartialEq, Eq)]
pub struct NameTables {
    pub levels: Vec<NameEntry>,
    pub opcodes: Vec<NameEntry>,
    pub tasks: Vec<NameEntry>,
    pub keywords: Vec<NameEntry>,
    pub channels: Vec<NameEntry>,
}

/// An event of a provider with its message as the platform formatted
/// it: `None` where the event has no message or formatting failed.
#[derive(Debug, PartialEq, Eq)]
pub struct DescribedEvent {
    pub header: EventHeader,
    pub message: Option<String>,
}

/// The fields of an event: none where its template is empty, else those
/// that the template declares, if it can be read.
pub open spec fn event_fields(template: Seq<char>) -> Option<Seq<FieldView>> {
    if template.len() == 0 {
        Some(Seq::empty())
    } else {
        template_fields(xml_tree(template))
    }
}

/// The definition of an event, built from the event's properties and
/// the provider's names; nothing where the event's template cannot be
/// read. A message counts only where the event has a message identifier.
pub open spec fn definition_of(event: DescribedEvent, tables: NameTables) -> Option<
    DefinitionView,
> {
    let header = event.header;
    match event_fields(header.template@) {
        None => None,
        Some(fields) => Some(
            DefinitionView {
                channel: resolved_name(
                    names_view(tables.channels@),
                    StandardTable::Channels,
                    header.channel,
                ),
                message: if header.message_id < NO_MESSAGE {
                    opt_text(event.message)
                } else {
                    None
                },
                level: header.level,
                level_name: resolved_name(
                    names_view(tables.levels@),
                    StandardTable::Levels,
                    header.level,
                ),
                opcode: header.opcode,
                opcode_name: resolved_name(
                    names_view(tables.opcodes@),
                    StandardTable::Opcodes,
                    header.opcode,
                ),
                task: header.task,
                task_name: resolved_name(
                    names_view(tables.tasks@),
                    StandardTable::Tasks,
                    header.task,
                ),
                keywords: header.keywords,
                keyword_names: keyword_names_of(names_view(tables.keywords@), header.keywords),
                fields,
            },
        ),
    }
}

/// Reads the fields of an event from its template.
pub fn read_event_fields(template: &str) -> (r: Option<Vec<EventFieldDefinition>>)
    ensures
        r is Some <==> event_fields(template@) is Some,
        r matches Some(f) ==> event_fields(template@) == Some(fields_of(f@)),
{
    if template.unicode_len() == 0 {
        let none: Vec<EventFieldDefinition> = Vec::new();
        assert(fields_of(none@) == Seq::<FieldView>::empty());
        Some(none)
    } else {
        let tree = parse_template(template);
        fields_from_template(&tree)
    }
}

/// Builds the definition of an event.
pub fn event_definition(event: &DescribedEvent, tables: &NameTables) -> (r: Option<
    EventDefinition,
>)
    ensures
        r is Some <==> definition_of(*event, *tables) is Some,
        r matches Some(d) ==> definition_of(*event, *tables) == Some(d@),
{
    let header = &event.header;
    let fields = match read_event_fields(header.template.as_str()) {
        None => {
            return None;
        },
        Some(f) => f,
    };
    let message = if header.message_id < NO_MESSAGE {
        crate::metadata::clone_opt_text(&event.message)
    } else {
        None
    };
    Some(
        EventDefinition {
            channel: resolve_name(&tables.channels, StandardTable::Channels, header.channel),
            message,
            level: header.level,
            level_name: resolve_name(&tables.levels, StandardTable::Levels, header.level),
            opcode: header.opcode,
            opcode_name: resolve_name(&tables.opcodes, StandardTable::Opcodes, header.opcode),
            task: header.task,
            task_name: resolve_name(&tables.tasks, StandardTable::Tasks, header.task),
            keywords: header.keywords,
            keyword_names: keyword_names(&tables.keywords, header.keywords),
            fields,
        },
    )
}

/// The events of a provider with one more definition: the definition
/// stands under its event and version, in place of an earlier one.
pub open spec fn with_definition(
    events: Map<u64, Map<u64, DefinitionView>>,
    event_id: u64,
    version: u64,
    definition: DefinitionView,
) -> Map<u64, Map<u64, DefinitionView>> {
    let versions = if events.dom().contains(event_id) {
        events[event_id]
    } else {
        Map::empty()
    };
    events.insert(event_id, versions.insert(version, definition))
}

/// Puts a definition under its event and version.
pub fn add_definition(
    events: &mut Vec<EventEntry>,
    event_id: u64,
    version: u64,
    definition: EventDefinition,
)
    ensures
        events_view(final(events)@) == with_definition(
            events_view(old(events)@),
            event_id,
            version,
            definition@,
        ),
{
    let ghost pairs = event_pairs(events@);
    match find_event(events, event_id) {
        None => {
            let mut versions: Vec<VersionEntry> = Vec::new();
            let ghost none = version_pairs(versions@);
            assert(none == Seq::<(u64, DefinitionView)>::empty());
            proof {
                lemma_push(none, version, definition@);
            }
            versions.push(VersionEntry { version, definition });
            assert(version_pairs(versions@) == none.push((version, definition@)));
            let ghost value = versions_view(versions@);
            proof {
                lemma_push(pairs, event_id, value);
            }
            events.push(EventEntry { event_id, versions });
            assert(event_pairs(events@) == pairs.push((event_id, value)));
        },
        Some(at) => {
            let mut versions = clone_versions(&events[at].versions);
            let ghost mine = version_pairs(versions@);
            match find_version(&versions, version) {
                None => {
                    proof {
                        lemma_push(mine, version, definition@);
                    }
                    versions.push(VersionEntry { version, definition });
                    assert(version_pairs(versions@) == mine.push((version, definition@)));
                },
                Some(v) => {
                    proof {
                        lemma_update(mine, v as int, definition@);
                    }
                    versions.set(v, VersionEntry { version, definition });
                    assert(version_pairs(versions@) == mine.update(
                        v as int,
                        (version, definition@),
                    ));
                },
            }
            let ghost value = versions_view(versions@);
            proof {
                lemma_update(pairs, at as int, value);
            }
            events.set(at, EventEntry { event_id, versions });
            assert(event_pairs(events@) == pairs.update(at as int, (event_id, value)));
        },
    }
}

/// The events of a provider after the first `n` of the described events:
/// each event whose template can be read stands under its identifier and
/// version, a later one in place of an earlier one.
pub open spec fn provider_events(tables: NameTables, events: Seq<DescribedEvent>, n: int) -> Map<
    u64,
    Map<u64, DefinitionView>,
>
    decreases n,
{
    if n <= 0 {
        Map::empty()
    } else {
        let before = provider_events(tables, events, n - 1);
        match definition_of(events[n - 1], tables) {
            None => before,
            Some(definition) => with_definition(
                before,
                events[n - 1].header.event_id,
                events[n - 1].header.version,
                definition,
            ),
        }
    }
}

/// Builds the definitions of the events of a provider.
pub fn get_evt_provider_events(tables: &NameTables, events: &Vec<DescribedEvent>) -> (r: Vec<
    EventEntry,
>)
    ensures
        events_view(r@) == provider_events(*tables, events@, events@.len() as int),
{
    let mut result: Vec<EventEntry> = Vec::new();
    assert(events_view(result@) == Map::<u64, Map<u64, DefinitionView>>::empty());
    let mut i: usize = 0;
    while i < events.len()
        invariant
            i <= events.len(),
            events_view(result@) == provider_events(*tables, events@, i as int),
        decreases events.len() - i,
    {
        match event_definition(&events[i], tables) {
            None => {},
            Some(definition) => {
                add_definition(
                    &mut result,
                    events[i].header.event_id,
                    events[i].header.version,
                    definition,
                );
            },
        }
        i += 1;
    }
    result
}

/// The kind of a channel that takes events for administrators.
pub const CHANNEL_TYPE_ADMIN: u32 = 0;

/// The kind of a channel that takes operational events.
pub const CHANNEL_TYPE_OPERATIONAL: u32 = 1;

/// The kind of a channel, read from the value of its configuration: an
/// unsigned number of at most 32 bits.
pub fn evt_get_channel_type(value: &EvtVariant) -> (r: Option<u32>)
    ensures
        r == as_u32(value@),
{
    read_u32(value)
}

/// Whether a channel of the given kind can be subscribed to: only
/// channels for administrators and operational channels can.
pub fn can_channel_be_subscribed(channel_type: u32) -> (r: bool)
    ensures
        r == (channel_type == CHANNEL_TYPE_OPERATIONAL || channel_type == CHANNEL_TYPE_ADMIN),
{
    channel_type == CHANNEL_TYPE_OPERATIONAL || channel_type == CHANNEL_TYPE_ADMIN
}

} // verus!
