//! Reading a protocol description (the XML files that describe Wayland
//! protocols) into the protocol model.

use vstd::prelude::*;
use vstd::utf8::encode_utf8;

use crate::iter_ext::SingleIterExt;
use crate::model::{
    arg_type_named, opt_chars, Arg, ArgType, ArgView, Enum, EnumVariant, EnumVariantView, EnumView,
    Interface, InterfaceView, Procedure, ProcedureView, Protocol, ProtocolView,
};
use crate::text::{
    base_prefix_value, digits_in, from_str_radix_spec, lemma_base_prefix_round_trip, parse_u32_base_prefix,
    parse_u32_decimal, IntParseError,
};
use crate::xml::{
    attr, child_elements, collect_text, element_text, elements_of, lemma_child_elements_step, named,
    parse_document, parsed_document, XmlChild, XmlElement,
};

verus! {

// ---------------------------------------------------------------------------
// What a description element means
// ---------------------------------------------------------------------------

/// The summary of a `<description>` element where it has one, otherwise the
/// summary found before.
pub open spec fn summary_or(d: XmlElement, before: Option<Seq<char>>) -> Option<Seq<char>> {
    match attr(d, "summary"@) {
        Some(s) => Some(s),
        None => before,
    }
}

/// Whether `e` is an `<arg>` with a name and a known type.
pub open spec fn arg_valid(e: XmlElement) -> bool {
    &&& named(e, "arg"@)
    &&& attr(e, "name"@) is Some
    &&& attr(e, "type"@) is Some
    &&& arg_type_named(attr(e, "type"@).unwrap()) is Some
}

/// The argument that an `<arg>` element describes.
pub open spec fn arg_spec(e: XmlElement) -> ArgView {
    ArgView {
        name: attr(e, "name"@).unwrap(),
        arg_type: arg_type_named(attr(e, "type"@).unwrap()).unwrap(),
        interface: attr(e, "interface"@),
        short_description: attr(e, "summary"@),
    }
}

/// The value attribute of an `<entry>` element, parsed.
pub open spec fn entry_value(e: XmlElement) -> Result<u32, IntParseError> {
    base_prefix_value(encode_utf8(attr(e, "value"@).unwrap()))
}

/// Whether `e` is an `<entry>` with a name and a numeric value.
pub open spec fn variant_valid(e: XmlElement) -> bool {
    &&& named(e, "entry"@)
    &&& attr(e, "name"@) is Some
    &&& attr(e, "value"@) is Some
    &&& entry_value(e) is Ok
}

/// The enumeration variant that an `<entry>` element describes.
pub open spec fn variant_spec(e: XmlElement) -> EnumVariantView {
    EnumVariantView {
        name: attr(e, "name"@).unwrap(),
        value: match entry_value(e) {
            Ok(v) => v,
            Err(_) => 0,
        },
        short_description: attr(e, "summary"@),
    }
}

/// What the children of a request or an event describe so far.
pub struct ProcedureAcc {
    pub short_description: Option<Seq<char>>,
    pub description: Option<Seq<char>>,
    pub args: Seq<ArgView>,
}

/// Reading the child elements `es` of a request or an event in order: the
/// last `<description>` gives the description, the last one with a summary
/// the short description, and each `<arg>` an argument.
pub open spec fn procedure_fold(es: Seq<XmlElement>) -> ProcedureAcc
    decreases es.len(),
{
    if es.len() == 0 {
        ProcedureAcc { short_description: None, description: None, args: Seq::empty() }
    } else {
        let acc = procedure_fold(es.drop_last());
        let c = es.last();
        if named(c, "description"@) {
            ProcedureAcc {
                short_description: summary_or(c, acc.short_description),
                description: Some(element_text(c)),
                args: acc.args,
            }
        } else if named(c, "arg"@) {
            ProcedureAcc { args: acc.args.push(arg_spec(c)), ..acc }
        } else {
            acc
        }
    }
}

/// Whether `e` is a `<request>` or an `<event>` with a name whose arguments
/// are all valid.
pub open spec fn procedure_valid(e: XmlElement) -> bool {
    &&& (named(e, "request"@) || named(e, "event"@))
    &&& attr(e, "name"@) is Some
    &&& forall|i: int|
        0 <= i < elements_of(e).len() && named(#[trigger] elements_of(e)[i], "arg"@) ==> arg_valid(
            elements_of(e)[i],
        )
}

/// The request or event that an element describes.
pub open spec fn procedure_spec(e: XmlElement) -> ProcedureView {
    let acc = procedure_fold(elements_of(e));
    ProcedureView {
        name: attr(e, "name"@).unwrap(),
        short_description: acc.short_description,
        description: acc.description,
        args: acc.args,
    }
}

/// What the children of an enumeration describe so far.
pub struct EnumAcc {
    pub short_description: Option<Seq<char>>,
    pub description: Option<Seq<char>>,
    pub variants: Seq<EnumVariantView>,
}

/// Reading the child elements of an `<enum>` in order.
pub open spec fn enum_fold(es: Seq<XmlElement>) -> EnumAcc
    decreases es.len(),
{
    if es.len() == 0 {
        EnumAcc { short_description: None, description: None, variants: Seq::empty() }
    } else {
        let acc = enum_fold(es.drop_last());
        let c = es.last();
        if named(c, "description"@) {
            EnumAcc {
                short_description: summary_or(c, acc.short_description),
                description: Some(element_text(c)),
                variants: acc.variants,
            }
        } else if named(c, "entry"@) {
            EnumAcc { variants: acc.variants.push(variant_spec(c)), ..acc }
        } else {
            acc
        }
    }
}

/// Whether `e` is an `<enum>` with a name whose entries are all valid.
pub open spec fn enum_valid(e: XmlElement) -> bool {
    &&& named(e, "enum"@)
    &&& attr(e, "name"@) is Some
    &&& forall|i: int|
        0 <= i < elements_of(e).len() && named(#[trigger] elements_of(e)[i], "entry"@)
            ==> variant_valid(elements_of(e)[i])
}

/// The enumeration that an `<enum>` element describes.
pub open spec fn enum_spec(e: XmlElement) -> EnumView {
    let acc = enum_fold(elements_of(e));
    EnumView {
        name: attr(e, "name"@).unwrap(),
        short_description: acc.short_description,
        description: acc.description,
        variants: acc.variants,
    }
}

/// What the children of an interface describe so far.
pub struct InterfaceAcc {
    pub short_description: Option<Seq<char>>,
    pub description: Option<Seq<char>>,
    pub requests: Seq<ProcedureView>,
    pub events: Seq<ProcedureView>,
    pub enums: Seq<EnumView>,
}

/// Reading the child elements of an `<interface>` in order.
pub open spec fn interface_fold(es: Seq<XmlElement>) -> InterfaceAcc
    decreases es.len(),
{
    if es.len() == 0 {
        InterfaceAcc {
            short_description: None,
            description: None,
            requests: Seq::empty(),
            events: Seq::empty(),
            enums: Seq::empty(),
        }
    } else {
        let acc = interface_fold(es.drop_last());
        let c = es.last();
        if named(c, "description"@) {
            InterfaceAcc {
                short_description: summary_or(c, acc.short_description),
                description: Some(element_text(c)),
                ..acc
            }
        } else if named(c, "request"@) {
            InterfaceAcc { requests: acc.requests.push(procedure_spec(c)), ..acc }
        } else if named(c, "event"@) {
            InterfaceAcc { events: acc.events.push(procedure_spec(c)), ..acc }
        } else if named(c, "enum"@) {
            InterfaceAcc { enums: acc.enums.push(enum_spec(c)), ..acc }
        } else {
            acc
        }
    }
}

/// The version attribute of an `<interface>` element, parsed as a decimal.
pub open spec fn interface_version(e: XmlElement) -> Result<u32, IntParseError> {
    from_str_radix_spec(encode_utf8(attr(e, "version"@).unwrap()), 10)
}

/// Whether a child element of an interface is valid where it matters.
pub open spec fn interface_child_valid(c: XmlElement) -> bool {
    if named(c, "request"@) || named(c, "event"@) {
        procedure_valid(c)
    } else if named(c, "enum"@) {
        enum_valid(c)
    } else {
        true
    }
}

/// Whether `e` is an `<interface>` with a name and a decimal version whose
/// requests, events and enumerations are all valid.
pub open spec fn interface_valid(e: XmlElement) -> bool {
    &&& named(e, "interface"@)
    &&& attr(e, "name"@) is Some
    &&& attr(e, "version"@) is Some
    &&& interface_version(e) is Ok
    &&& forall|i: int| 0 <= i < elements_of(e).len() ==> interface_child_valid(#[trigger] elements_of(e)[i])
}

/// The interface that an `<interface>` element describes.
pub open spec fn interface_spec(e: XmlElement) -> InterfaceView {
    let acc = interface_fold(elements_of(e));
    InterfaceView {
        name: attr(e, "name"@).unwrap(),
        version: match interface_version(e) {
            Ok(v) => v,
            Err(_) => 0,
        },
        short_description: acc.short_description,
        description: acc.description,
        requests: acc.requests,
        events: acc.events,
        enums: acc.enums,
    }
}

/// Reading the child elements of a `<protocol>` in order: each
/// `<interface>` gives an interface, `<copyright>` and anything else is
/// skipped.
pub open spec fn protocol_fold(es: Seq<XmlElement>) -> Seq<InterfaceView>
    decreases es.len(),
{
    if es.len() == 0 {
        Seq::empty()
    } else {
        let acc = protocol_fold(es.drop_last());
        let c = es.last();
        if named(c, "copyright"@) {
            acc
        } else if named(c, "interface"@) {
            acc.push(interface_spec(c))
        } else {
            acc
        }
    }
}

/// Whether `e` is a `<protocol>` with a name whose interfaces are all valid.
pub open spec fn protocol_valid(e: XmlElement) -> bool {
    &&& named(e, "protocol"@)
    &&& attr(e, "name"@) is Some
    &&& forall|i: int|
        0 <= i < elements_of(e).len() && named(#[trigger] elements_of(e)[i], "interface"@)
            ==> interface_valid(elements_of(e)[i])
}

/// The protocol that a `<protocol>` element describes.
pub open spec fn protocol_spec(e: XmlElement) -> ProtocolView {
    ProtocolView { name: attr(e, "name"@).unwrap(), interfaces: protocol_fold(elements_of(e)) }
}

// ---------------------------------------------------------------------------
// Walking the child elements
// ---------------------------------------------------------------------------

/// The child elements of a prefix of the children are a prefix of the child
/// elements of all of them.
proof fn lemma_child_elements_prefix(cs: Seq<XmlChild>, j: int, k: int)
    requires
        0 <= j <= k <= cs.len(),
    ensures
        child_elements(cs.subrange(0, j)).len() <= child_elements(cs.subrange(0, k)).len(),
        forall|m: int|
            0 <= m < child_elements(cs.subrange(0, j)).len() ==> child_elements(cs.subrange(0, j))[m]
                == child_elements(cs.subrange(0, k))[m],
    decreases k - j,
{
    if j < k {
        lemma_child_elements_prefix(cs, j, k - 1);
        lemma_child_elements_step(cs, k - 1);
    }
}

/// The `i`-th child is an element of the child elements, at the position
/// that the elements before it leave.
proof fn lemma_child_element_at(cs: Seq<XmlChild>, i: int)
    requires
        0 <= i < cs.len(),
        cs[i] is Element,
    ensures
        child_elements(cs.subrange(0, i)).len() < child_elements(cs).len(),
        child_elements(cs)[child_elements(cs.subrange(0, i)).len() as int] == cs[i]->Element_0,
{
    lemma_child_elements_step(cs, i);
    lemma_child_elements_prefix(cs, i + 1, cs.len() as int);
    assert(cs.subrange(0, cs.len() as int) =~= cs);
}

/// Taking one more child into account in a fold over the child elements.
proof fn lemma_all_children(cs: Seq<XmlChild>)
    ensures
        child_elements(cs.subrange(0, cs.len() as int)) == child_elements(cs),
{
    assert(cs.subrange(0, cs.len() as int) =~= cs);
}

// ---------------------------------------------------------------------------
// Checking that a description can be read
// ---------------------------------------------------------------------------

/// Whether an `<arg>` element can be read.
pub fn arg_is_valid(e: &XmlElement) -> (res: bool)
    ensures
        res == arg_valid(*e),
{
    if !e.is_named("arg") || e.attribute_value("name").is_none() {
        return false;
    }
    match e.attribute_value("type") {
        Some(t) => ArgType::try_from_str(t).is_some(),
        None => false,
    }
}

/// Whether an `<entry>` element can be read.
pub fn variant_is_valid(e: &XmlElement) -> (res: bool)
    ensures
        res == variant_valid(*e),
{
    if !e.is_named("entry") || e.attribute_value("name").is_none() {
        return false;
    }
    match e.attribute_value("value") {
        Some(v) => parse_u32_base_prefix(v).is_ok(),
        None => false,
    }
}

/// Whether a `<request>` or `<event>` element can be read.
pub fn procedure_is_valid(e: &XmlElement) -> (res: bool)
    ensures
        res == procedure_valid(*e),
{
    if !(e.is_named("request") || e.is_named("event")) || e.attribute_value("name").is_none() {
        return false;
    }
    let ghost cs = e.children@;
    let mut i: usize = 0;
    while i < e.children.len()
        invariant
            cs == e.children@,
            0 <= i <= cs.len(),
            forall|k: int|
                0 <= k < child_elements(cs.subrange(0, i as int)).len() && named(
                    #[trigger] child_elements(cs.subrange(0, i as int))[k],
                    "arg"@,
                ) ==> arg_valid(child_elements(cs.subrange(0, i as int))[k]),
        decreases cs.len() - i,
    {
        proof {
            lemma_child_elements_step(cs, i as int);
        }
        if let XmlChild::Element(c) = &e.children[i] {
            if c.is_named("arg") && !arg_is_valid(c) {
                proof {
                    lemma_child_element_at(cs, i as int);
                    let k = child_elements(cs.subrange(0, i as int)).len() as int;
                    assert(elements_of(*e)[k] == *c);
                }
                return false;
            }
        }
        i = i + 1;
    }
    proof {
        lemma_all_children(cs);
    }
    true
}

/// Whether an `<enum>` element can be read.
pub fn enum_is_valid(e: &XmlElement) -> (res: bool)
    ensures
        res == enum_valid(*e),
{
    if !e.is_named("enum") || e.attribute_value("name").is_none() {
        return false;
    }
    let ghost cs = e.children@;
    let mut i: usize = 0;
    while i < e.children.len()
        invariant
            cs == e.children@,
            0 <= i <= cs.len(),
            forall|k: int|
                0 <= k < child_elements(cs.subrange(0, i as int)).len() && named(
                    #[trigger] child_elements(cs.subrange(0, i as int))[k],
                    "entry"@,
                ) ==> variant_valid(child_elements(cs.subrange(0, i as int))[k]),
        decreases cs.len() - i,
    {
        proof {
            lemma_child_elements_step(cs, i as int);
        }
        if let XmlChild::Element(c) = &e.children[i] {
            if c.is_named("entry") && !variant_is_valid(c) {
                proof {
                    lemma_child_element_at(cs, i as int);
                    let k = child_elements(cs.subrange(0, i as int)).len() as int;
                    assert(elements_of(*e)[k] == *c);
                }
                return false;
            }
        }
        i = i + 1;
    }
    proof {
        lemma_all_children(cs);
    }
    true
}

/// Whether an `<interface>` element can be read.
pub fn interface_is_valid(e: &XmlElement) -> (res: bool)
    ensures
        res == interface_valid(*e),
{
    if !e.is_named("interface") || e.attribute_value("name").is_none() {
        return false;
    }
    match e.attribute_value("version") {
        Some(v) => {
            if parse_u32_decimal(v).is_err() {
                return false;
            }
        },
        None => return false,
    }
    let ghost cs = e.children@;
    let mut i: usize = 0;
    while i < e.children.len()
        invariant
            cs == e.children@,
            0 <= i <= cs.len(),
            forall|k: int|
                0 <= k < child_elements(cs.subrange(0, i as int)).len() ==> interface_child_valid(
                    #[trigger] child_elements(cs.subrange(0, i as int))[k],
                ),
        decreases cs.len() - i,
    {
        proof {
            lemma_child_elements_step(cs, i as int);
        }
        if let XmlChild::Element(c) = &e.children[i] {
            let ok = if c.is_named("request") || c.is_named("event") {
                procedure_is_valid(c)
            } else if c.is_named("enum") {
                enum_is_valid(c)
            } else {
                true
            };
            if !ok {
                proof {
                    lemma_child_element_at(cs, i as int);
                    let k = child_elements(cs.subrange(0, i as int)).len() as int;
                    assert(elements_of(*e)[k] == *c);
                }
                return false;
            }
        }
        i = i + 1;
    }
    proof {
        lemma_all_children(cs);
    }
    true
}

/// Whether a `<protocol>` element can be read.
pub fn protocol_is_valid(e: &XmlElement) -> (res: bool)
    ensures
        res == protocol_valid(*e),
{
    if !e.is_named("protocol") || e.attribute_value("name").is_none() {
        return false;
    }
    let ghost cs = e.children@;
    let mut i: usize = 0;
    while i < e.children.len()
        invariant
            cs == e.children@,
            0 <= i <= cs.len(),
            forall|k: int|
                0 <= k < child_elements(cs.subrange(0, i as int)).len() && named(
                    #[trigger] child_elements(cs.subrange(0, i as int))[k],
                    "interface"@,
                ) ==> interface_valid(child_elements(cs.subrange(0, i as int))[k]),
        decreases cs.len() - i,
    {
        proof {
            lemma_child_elements_step(cs, i as int);
        }
        if let XmlChild::Element(c) = &e.children[i] {
            if c.is_named("interface") && !interface_is_valid(c) {
                proof {
                    lemma_child_element_at(cs, i as int);
                    let k = child_elements(cs.subrange(0, i as int)).len() as int;
                    assert(elements_of(*e)[k] == *c);
                }
                return false;
            }
        }
        i = i + 1;
    }
    proof {
        lemma_all_children(cs);
    }
    true
}

// ---------------------------------------------------------------------------
// Reading a description
// ---------------------------------------------------------------------------

/// The characters of an optional borrowed string, owned.
fn owned(s: Option<&str>) -> (res: Option<String>)
    ensures
        opt_chars(res) == match s {
            Some(v) => Some(v@),
            None => None::<Seq<char>>,
        },
{
    match s {
        Some(v) => Some(v.to_owned()),
        None => None,
    }
}

/// The value of an attribute that is known to be present.
fn required_attribute<'a>(e: &'a XmlElement, key: &str) -> (res: &'a str)
    requires
        attr(*e, key@) is Some,
    ensures
        res@ == attr(*e, key@).unwrap(),
{
    match e.attribute_value(key) {
        Some(v) => v,
        None => {
            assert(false);
            ""
        },
    }
}

/// Reads an `<arg>` element.
pub fn process_arg(arg_elem: &XmlElement) -> (res: Arg)
    requires
        arg_valid(*arg_elem),
    ensures
        res@ == arg_spec(*arg_elem),
{
    let name = required_attribute(arg_elem, "name").to_owned();
    let arg_type = match ArgType::try_from_str(required_attribute(arg_elem, "type")) {
        Some(t) => t,
        None => {
            assert(false);
            ArgType::Uint
        },
    };
    let interface = owned(arg_elem.attribute_value("interface"));
    let short_description = owned(arg_elem.attribute_value("summary"));
    Arg { name, arg_type, interface, short_description }
}

/// Reads an `<entry>` element.
pub fn process_enum_variant(variant_elem: &XmlElement) -> (res: EnumVariant)
    requires
        variant_valid(*variant_elem),
    ensures
        res@ == variant_spec(*variant_elem),
{
    let name = required_attribute(variant_elem, "name").to_owned();
    let value = match parse_u32_base_prefix(required_attribute(variant_elem, "value")) {
        Ok(v) => v,
        Err(_) => {
            assert(false);
            0
        },
    };
    let short_description = owned(variant_elem.attribute_value("summary"));
    EnumVariant { name, value, short_description }
}

/// Reads a `<request>` or `<event>` element.
pub fn process_procedure(proc_elem: &XmlElement) -> (res: Procedure)
    requires
        procedure_valid(*proc_elem),
    ensures
        res@ == procedure_spec(*proc_elem),
{
    let name = required_attribute(proc_elem, "name").to_owned();
    let mut short_description: Option<String> = None;
    let mut description: Option<String> = None;
    let mut args: Vec<Arg> = Vec::new();
    let ghost cs = proc_elem.children@;
    let mut i: usize = 0;
    while i < proc_elem.children.len()
        invariant
            cs == proc_elem.children@,
            0 <= i <= cs.len(),
            procedure_valid(*proc_elem),
            ({
                let acc = procedure_fold(child_elements(cs.subrange(0, i as int)));
                &&& opt_chars(short_description) == acc.short_description
                &&& opt_chars(description) == acc.description
                &&& args@.map_values(|a: Arg| a@) == acc.args
            }),
        decreases cs.len() - i,
    {
        proof {
            lemma_child_elements_step(cs, i as int);
        }
        if let XmlChild::Element(child) = &proc_elem.children[i] {
            let ghost before = child_elements(cs.subrange(0, i as int));
            proof {
                lemma_child_element_at(cs, i as int);
                assert(elements_of(*proc_elem)[before.len() as int] == *child);
                assert(before.push(*child).drop_last() =~= before);
            }
            if child.is_named("description") {
                if let Some(summary) = child.attribute_value("summary") {
                    short_description = Some(summary.to_owned());
                }
                description = Some(collect_text(child));
            } else if child.is_named("arg") {
                let arg = process_arg(child);
                let ghost old_args = args@;
                args.push(arg);
                assert(args@.map_values(|a: Arg| a@) =~= old_args.map_values(|a: Arg| a@).push(arg@));
            }
        }
        i = i + 1;
    }
    proof {
        lemma_all_children(cs);
    }
    Procedure { name, short_description, description, args }
}

/// Reads an `<enum>` element.
pub fn process_enum(enum_elem: &XmlElement) -> (res: Enum)
    requires
        enum_valid(*enum_elem),
    ensures
        res@ == enum_spec(*enum_elem),
{
    let name = required_attribute(enum_elem, "name").to_owned();
    let mut short_description: Option<String> = None;
    let mut description: Option<String> = None;
    let mut variants: Vec<EnumVariant> = Vec::new();
    let ghost cs = enum_elem.children@;
    let mut i: usize = 0;
    while i < enum_elem.children.len()
        invariant
            cs == enum_elem.children@,
            0 <= i <= cs.len(),
            enum_valid(*enum_elem),
            ({
                let acc = enum_fold(child_elements(cs.subrange(0, i as int)));
                &&& opt_chars(short_description) == acc.short_description
                &&& opt_chars(description) == acc.description
                &&& variants@.map_values(|v: EnumVariant| v@) == acc.variants
            }),
        decreases cs.len() - i,
    {
        proof {
            lemma_child_elements_step(cs, i as int);
        }
        if let XmlChild::Element(child) = &enum_elem.children[i] {
            let ghost before = child_elements(cs.subrange(0, i as int));
            proof {
                lemma_child_element_at(cs, i as int);
                assert(elements_of(*enum_elem)[before.len() as int] == *child);
                assert(before.push(*child).drop_last() =~= before);
            }
            if child.is_named("description") {
                if let Some(summary) = child.attribute_value("summary") {
                    short_description = Some(summary.to_owned());
                }
                description = Some(collect_text(child));
            } else if child.is_named("entry") {
                let variant = process_enum_variant(child);
                let ghost old_variants = variants@;
                variants.push(variant);
                assert(variants@.map_values(|v: EnumVariant| v@) =~= old_variants.map_values(
                    |v: EnumVariant| v@,
                ).push(variant@));
            }
        }
        i = i + 1;
    }
    proof {
        lemma_all_children(cs);
    }
    Enum { name, short_description, description, variants }
}

/// Reads an `<interface>` element.
pub fn process_interface(interface_elem: &XmlElement) -> (res: Interface)
    requires
        interface_valid(*interface_elem),
    ensures
        res@ == interface_spec(*interface_elem),
{
    let name = required_attribute(interface_elem, "name").to_owned();
    let version = match parse_u32_decimal(required_attribute(interface_elem, "version")) {
        Ok(v) => v,
        Err(_) => {
            assert(false);
            0
        },
    };
    let mut short_description: Option<String> = None;
    let mut description: Option<String> = None;
    let mut requests: Vec<Procedure> = Vec::new();
    let mut events: Vec<Procedure> = Vec::new();
    let mut enums: Vec<Enum> = Vec::new();
    let ghost cs = interface_elem.children@;
    let mut i: usize = 0;
    while i < interface_elem.children.len()
        invariant
            cs == interface_elem.children@,
            0 <= i <= cs.len(),
            interface_valid(*interface_elem),
            ({
                let acc = interface_fold(child_elements(cs.subrange(0, i as int)));
                &&& opt_chars(short_description) == acc.short_description
                &&& opt_chars(description) == acc.description
                &&& requests@.map_values(|p: Procedure| p@) == acc.requests
                &&& events@.map_values(|p: Procedure| p@) == acc.events
                &&& enums@.map_values(|e: Enum| e@) == acc.enums
            }),
        decreases cs.len() - i,
    {
        proof {
            lemma_child_elements_step(cs, i as int);
        }
        if let XmlChild::Element(child) = &interface_elem.children[i] {
            let ghost before = child_elements(cs.subrange(0, i as int));
            proof {
                lemma_child_element_at(cs, i as int);
                assert(elements_of(*interface_elem)[before.len() as int] == *child);
                assert(interface_child_valid(*child));
                assert(before.push(*child).drop_last() =~= before);
            }
            if child.is_named("description") {
                if let Some(summary) = child.attribute_value("summary") {
                    short_description = Some(summary.to_owned());
                }
                description = Some(collect_text(child));
            } else if child.is_named("request") {
                let request = process_procedure(child);
                let ghost old = requests@;
                requests.push(request);
                assert(requests@.map_values(|p: Procedure| p@) =~= old.map_values(|p: Procedure| p@).push(
                    request@,
                ));
            } else if child.is_named("event") {
                let event = process_procedure(child);
                let ghost old = events@;
                events.push(event);
                assert(events@.map_values(|p: Procedure| p@) =~= old.map_values(|p: Procedure| p@).push(
                    event@,
                ));
            } else if child.is_named("enum") {
                let enumeration = process_enum(child);
                let ghost old = enums@;
                enums.push(enumeration);
                assert(enums@.map_values(|e: Enum| e@) =~= old.map_values(|e: Enum| e@).push(
                    enumeration@,
                ));
            }
        }
        i = i + 1;
    }
    proof {
        lemma_all_children(cs);
    }
    Interface { name, version, short_description, description, requests, events, enums }
}

/// Reads a `<protocol>` element.
pub fn process_protocol(protocol_elem: &XmlElement) -> (res: Protocol)
    requires
        protocol_valid(*protocol_elem),
    ensures
        res@ == protocol_spec(*protocol_elem),
{
    let name = required_attribute(protocol_elem, "name").to_owned();
    let mut interfaces: Vec<Interface> = Vec::new();
    let ghost cs = protocol_elem.children@;
    let mut i: usize = 0;
    while i < protocol_elem.children.len()
        invariant
            cs == protocol_elem.children@,
            0 <= i <= cs.len(),
            protocol_valid(*protocol_elem),
            interfaces@.map_values(|f: Interface| f@) == protocol_fold(
                child_elements(cs.subrange(0, i as int)),
            ),
        decreases cs.len() - i,
    {
        proof {
            lemma_child_elements_step(cs, i as int);
        }
        if let XmlChild::Element(child) = &protocol_elem.children[i] {
            let ghost before = child_elements(cs.subrange(0, i as int));
            proof {
                lemma_child_element_at(cs, i as int);
                assert(elements_of(*protocol_elem)[before.len() as int] == *child);
                assert(before.push(*child).drop_last() =~= before);
            }
            if child.is_named("copyright") {
            } else if child.is_named("interface") {
                let interface = process_interface(child);
                let ghost old = interfaces@;
                interfaces.push(interface);
                assert(interfaces@.map_values(|f: Interface| f@) =~= old.map_values(|f: Interface| f@).push(
                    interface@,
                ));
            }
        }
        i = i + 1;
    }
    proof {
        lemma_all_children(cs);
    }
    Protocol { name, interfaces }
}

/// Why a document does not describe a protocol.
#[derive(Clone, Copy, Debug, PartialEq, Eq, Structural, Hash)]
pub enum ProtocolDocumentError {
    /// The text is not well-formed XML.
    MalformedXml,
    /// The document has no root element.
    NoRootElement,
    /// The document has more than one root element.
    MultipleRootElements,
    /// The root element is not `<protocol>`.
    RootNotProtocol,
    /// An element lacks a name, a type, a version or a value, or holds one
    /// that cannot be read.
    InvalidProtocol,
}

/// The protocol that a document with the root children `roots` describes.
pub open spec fn document_protocol(roots: Seq<XmlChild>) -> Result<ProtocolView, ProtocolDocumentError> {
    let es = child_elements(roots);
    if es.len() == 0 {
        Err(ProtocolDocumentError::NoRootElement)
    } else if es.len() >= 2 {
        Err(ProtocolDocumentError::MultipleRootElements)
    } else if !named(es[0], "protocol"@) {
        Err(ProtocolDocumentError::RootNotProtocol)
    } else if !protocol_valid(es[0]) {
        Err(ProtocolDocumentError::InvalidProtocol)
    } else {
        Ok(protocol_spec(es[0]))
    }
}

/// Reads the protocol that a document describes, given the children of its
/// root: there must be exactly one root element, a valid `<protocol>`.
pub fn protocol_from_document(roots: &[XmlChild]) -> (res: Result<Protocol, ProtocolDocumentError>)
    ensures
        match document_protocol(roots@) {
            Ok(p) => res matches Ok(q) && q@ == p,
            Err(e) => res == Err::<Protocol, ProtocolDocumentError>(e),
        },
{
    let ghost cs = roots@;
    let mut elements: Vec<&XmlElement> = Vec::new();
    let mut i: usize = 0;
    while i < roots.len()
        invariant
            cs == roots@,
            0 <= i <= cs.len(),
            elements@.len() == child_elements(cs.subrange(0, i as int)).len(),
            forall|k: int|
                0 <= k < elements@.len() ==> *elements@[k] == #[trigger] child_elements(
                    cs.subrange(0, i as int),
                )[k],
        decreases cs.len() - i,
    {
        proof {
            lemma_child_elements_step(cs, i as int);
        }
        if let XmlChild::Element(e) = &roots[i] {
            elements.push(e);
        }
        i = i + 1;
    }
    proof {
        lemma_all_children(cs);
    }
    let root = match elements.single() {
        Ok(r) => r,
        Err(crate::iter_ext::SingleIterError::NoItem) => {
            return Err(ProtocolDocumentError::NoRootElement);
        },
        Err(crate::iter_ext::SingleIterError::MultipleItems { .. }) => {
            return Err(ProtocolDocumentError::MultipleRootElements);
        },
    };
    if !root.is_named("protocol") {
        return Err(ProtocolDocumentError::RootNotProtocol);
    }
    if !protocol_is_valid(root) {
        return Err(ProtocolDocumentError::InvalidProtocol);
    }
    Ok(process_protocol(root))
}

/// Reads the protocol that an XML text describes: the text must parse, and
/// its root must then describe a protocol as `protocol_from_document` asks.
pub fn protocol_from_text(text: &str) -> (res: Result<Protocol, ProtocolDocumentError>)
    ensures
        match parsed_document(text@) {
            None => res == Err::<Protocol, ProtocolDocumentError>(ProtocolDocumentError::MalformedXml),
            Some(roots) => match document_protocol(roots) {
                Ok(p) => res matches Ok(q) && q@ == p,
                Err(e) => res == Err::<Protocol, ProtocolDocumentError>(e),
            },
        },
{
    match parse_document(text) {
        Some(roots) => protocol_from_document(roots.as_slice()),
        None => Err(ProtocolDocumentError::MalformedXml),
    }
}

// ---------------------------------------------------------------------------
// Laws: what a description lists, in document order
// ---------------------------------------------------------------------------

/// The predicate "is named `local` without a namespace".
pub open spec fn named_pred(local: Seq<char>) -> spec_fn(XmlElement) -> bool {
    |c: XmlElement| named(c, local)
}

/// The predicate "has a summary attribute".
pub open spec fn has_summary_pred() -> spec_fn(XmlElement) -> bool {
    |c: XmlElement| attr(c, "summary"@) is Some
}

/// Those of `es` that are named `local`, in order.
pub open spec fn those_named(es: Seq<XmlElement>, local: Seq<char>) -> Seq<XmlElement> {
    es.filter(named_pred(local))
}

/// The text of the last of `ds`, if there is one.
pub open spec fn last_text(ds: Seq<XmlElement>) -> Option<Seq<char>> {
    if ds.len() == 0 {
        None
    } else {
        Some(element_text(ds.last()))
    }
}

/// The summary of the last of `ds` that has one, if there is one.
pub open spec fn last_summary(ds: Seq<XmlElement>) -> Option<Seq<char>> {
    let ss = ds.filter(has_summary_pred());
    if ss.len() == 0 {
        None
    } else {
        attr(ss.last(), "summary"@)
    }
}

/// The requests, events and enumerations of an element, each described by
/// its own reading.
pub open spec fn procedures_of(es: Seq<XmlElement>) -> Seq<ProcedureView> {
    es.map_values(|c: XmlElement| procedure_spec(c))
}

/// The enumerations that the elements `es` describe.
pub open spec fn enums_of(es: Seq<XmlElement>) -> Seq<EnumView> {
    es.map_values(|c: XmlElement| enum_spec(c))
}

/// The interfaces that the elements `es` describe.
pub open spec fn interfaces_of(es: Seq<XmlElement>) -> Seq<InterfaceView> {
    es.map_values(|c: XmlElement| interface_spec(c))
}

/// The arguments that the elements `es` describe.
pub open spec fn args_of(es: Seq<XmlElement>) -> Seq<ArgView> {
    es.map_values(|c: XmlElement| arg_spec(c))
}

/// The variants that the elements `es` describe.
pub open spec fn variants_of(es: Seq<XmlElement>) -> Seq<EnumVariantView> {
    es.map_values(|c: XmlElement| variant_spec(c))
}

/// The element names that a description tells apart are distinct.
proof fn lemma_distinct_names()
    ensures
        "description"@ != "request"@,
        "description"@ != "event"@,
        "description"@ != "enum"@,
        "description"@ != "arg"@,
        "description"@ != "entry"@,
        "request"@ != "event"@,
        "request"@ != "enum"@,
        "event"@ != "enum"@,
        "copyright"@ != "interface"@,
{
    reveal_strlit("description");
    reveal_strlit("request");
    reveal_strlit("event");
    reveal_strlit("enum");
    reveal_strlit("arg");
    reveal_strlit("entry");
    reveal_strlit("copyright");
    reveal_strlit("interface");
    assert("description"@.len() == 11);
    assert("request"@.len() == 7);
    assert("event"@.len() == 5);
    assert("enum"@.len() == 4);
    assert("arg"@.len() == 3);
    assert("entry"@.len() == 5 && "entry"@[1] == 'n' && "event"@[1] == 'v');
    assert("copyright"@[0] == 'c' && "interface"@[0] == 'i');
}

/// The descriptions found so far, taking one more element into account.
proof fn lemma_descriptions_step(es: Seq<XmlElement>)
    requires
        es.len() > 0,
    ensures
        named(es.last(), "description"@) ==> {
            &&& last_text(those_named(es, "description"@)) == Some(element_text(es.last()))
            &&& last_summary(those_named(es, "description"@)) == summary_or(
                es.last(),
                last_summary(those_named(es.drop_last(), "description"@)),
            )
        },
        !named(es.last(), "description"@) ==> those_named(es, "description"@) == those_named(
            es.drop_last(),
            "description"@,
        ),
{
    reveal(Seq::filter);
    let ds = those_named(es.drop_last(), "description"@);
    if named(es.last(), "description"@) {
        let all = ds.push(es.last());
        assert(all.drop_last() =~= ds);
        assert(those_named(es, "description"@) == all);
    }
}

/// What reading the child elements of an interface gives, in terms of the
/// children of each name.
proof fn lemma_interface_fold(es: Seq<XmlElement>)
    ensures
        interface_fold(es).requests == procedures_of(those_named(es, "request"@)),
        interface_fold(es).events == procedures_of(those_named(es, "event"@)),
        interface_fold(es).enums == enums_of(those_named(es, "enum"@)),
        interface_fold(es).description == last_text(those_named(es, "description"@)),
        interface_fold(es).short_description == last_summary(those_named(es, "description"@)),
    decreases es.len(),
{
    reveal(Seq::filter);
    lemma_distinct_names();
    if es.len() > 0 {
        let init = es.drop_last();
        let c = es.last();
        lemma_interface_fold(init);
        lemma_descriptions_step(es);
        let (rs, vs, ns) = (those_named(init, "request"@), those_named(init, "event"@), those_named(init, "enum"@));
        assert(procedures_of(rs.push(c)) =~= procedures_of(rs).push(procedure_spec(c)));
        assert(procedures_of(vs.push(c)) =~= procedures_of(vs).push(procedure_spec(c)));
        assert(enums_of(ns.push(c)) =~= enums_of(ns).push(enum_spec(c)));
    } else {
        assert(procedures_of(es) =~= Seq::empty());
        assert(enums_of(es) =~= Seq::empty());
    }
}

/// What reading the child elements of a request or an event gives.
proof fn lemma_procedure_fold(es: Seq<XmlElement>)
    ensures
        procedure_fold(es).args == args_of(those_named(es, "arg"@)),
        procedure_fold(es).description == last_text(those_named(es, "description"@)),
        procedure_fold(es).short_description == last_summary(those_named(es, "description"@)),
    decreases es.len(),
{
    reveal(Seq::filter);
    lemma_distinct_names();
    if es.len() > 0 {
        lemma_procedure_fold(es.drop_last());
        lemma_descriptions_step(es);
        let xs = those_named(es.drop_last(), "arg"@);
        assert(args_of(xs.push(es.last())) =~= args_of(xs).push(arg_spec(es.last())));
    } else {
        assert(args_of(es) =~= Seq::empty());
    }
}

/// What reading the child elements of an enumeration gives.
proof fn lemma_enum_fold(es: Seq<XmlElement>)
    ensures
        enum_fold(es).variants == variants_of(those_named(es, "entry"@)),
        enum_fold(es).description == last_text(those_named(es, "description"@)),
        enum_fold(es).short_description == last_summary(those_named(es, "description"@)),
    decreases es.len(),
{
    reveal(Seq::filter);
    lemma_distinct_names();
    if es.len() > 0 {
        lemma_enum_fold(es.drop_last());
        lemma_descriptions_step(es);
        let xs = those_named(es.drop_last(), "entry"@);
        assert(variants_of(xs.push(es.last())) =~= variants_of(xs).push(variant_spec(es.last())));
    } else {
        assert(variants_of(es) =~= Seq::empty());
    }
}

/// What reading the child elements of a protocol gives.
proof fn lemma_protocol_fold(es: Seq<XmlElement>)
    ensures
        protocol_fold(es) == interfaces_of(those_named(es, "interface"@)),
    decreases es.len(),
{
    reveal(Seq::filter);
    lemma_distinct_names();
    if es.len() > 0 {
        lemma_protocol_fold(es.drop_last());
        let xs = those_named(es.drop_last(), "interface"@);
        assert(interfaces_of(xs.push(es.last())) =~= interfaces_of(xs).push(interface_spec(es.last())));
    } else {
        assert(interfaces_of(es) =~= Seq::empty());
    }
}

/// An interface lists the requests, the events and the enumerations that its
/// `<request>`, `<event>` and `<enum>` children describe, in document order.
/// Its description is the text of its last `<description>` child, and its
/// short description the summary of the last `<description>` child that has
/// one.
pub proof fn lemma_interface_children(e: XmlElement)
    ensures
        interface_spec(e).name == attr(e, "name"@).unwrap(),
        interface_version(e) is Ok ==> interface_version(e) == Ok::<u32, IntParseError>(interface_spec(e).version),
        interface_spec(e).requests == procedures_of(those_named(elements_of(e), "request"@)),
        interface_spec(e).events == procedures_of(those_named(elements_of(e), "event"@)),
        interface_spec(e).enums == enums_of(those_named(elements_of(e), "enum"@)),
        interface_spec(e).description == last_text(those_named(elements_of(e), "description"@)),
        interface_spec(e).short_description == last_summary(those_named(elements_of(e), "description"@)),
{
    lemma_interface_fold(elements_of(e));
}

/// A request or an event lists the arguments that its `<arg>` children
/// describe, in document order; other children give only its descriptions,
/// as for an interface.
pub proof fn lemma_procedure_children(e: XmlElement)
    ensures
        procedure_spec(e).name == attr(e, "name"@).unwrap(),
        procedure_spec(e).args == args_of(those_named(elements_of(e), "arg"@)),
        procedure_spec(e).description == last_text(those_named(elements_of(e), "description"@)),
        procedure_spec(e).short_description == last_summary(those_named(elements_of(e), "description"@)),
{
    lemma_procedure_fold(elements_of(e));
}

/// An enumeration lists the variants that its `<entry>` children describe,
/// in document order; other children give only its descriptions, as for an
/// interface.
pub proof fn lemma_enum_children(e: XmlElement)
    ensures
        enum_spec(e).name == attr(e, "name"@).unwrap(),
        enum_spec(e).variants == variants_of(those_named(elements_of(e), "entry"@)),
        enum_spec(e).description == last_text(those_named(elements_of(e), "description"@)),
        enum_spec(e).short_description == last_summary(those_named(elements_of(e), "description"@)),
{
    lemma_enum_fold(elements_of(e));
}

/// A protocol lists the interfaces that its `<interface>` children describe,
/// in document order; `<copyright>` and every other child add nothing.
pub proof fn lemma_protocol_children(e: XmlElement)
    ensures
        protocol_spec(e).name == attr(e, "name"@).unwrap(),
        protocol_spec(e).interfaces == interfaces_of(those_named(elements_of(e), "interface"@)),
{
    lemma_protocol_fold(elements_of(e));
}


/// An argument is read from its element's attributes, whatever its type: its
/// name, the type its `type` attribute names, its `interface` attribute
/// exactly as written (absent where the element has none) and its summary.
pub proof fn lemma_arg_reads_attributes(e: XmlElement)
    requires
        arg_valid(e),
    ensures
        Some(arg_spec(e).name) == attr(e, "name"@),
        Some(arg_spec(e).arg_type) == arg_type_named(attr(e, "type"@).unwrap()),
        arg_spec(e).interface == attr(e, "interface"@),
        arg_spec(e).short_description == attr(e, "summary"@),
{
}

/// An enumeration entry's value is the number its `value` attribute spells:
/// in hexadecimal after `0x`, in binary after `0b`, in decimal otherwise. In
/// particular a 32-bit number written in decimal, `0x` hexadecimal or `0b`
/// binary is read as that number.
pub proof fn lemma_entry_reads_value(e: XmlElement)
    requires
        variant_valid(e),
    ensures
        Some(variant_spec(e).name) == attr(e, "name"@),
        base_prefix_value(encode_utf8(attr(e, "value"@).unwrap())) == Ok::<u32, IntParseError>(
            variant_spec(e).value,
        ),
        forall|n: u32|
            encode_utf8(attr(e, "value"@).unwrap()) == #[trigger] digits_in(n as nat, 10) ==> variant_spec(e).value
                == n,
        forall|n: u32|
            encode_utf8(attr(e, "value"@).unwrap()) == seq![48u8, 120u8] + #[trigger] digits_in(n as nat, 16)
                ==> variant_spec(e).value == n,
        forall|n: u32|
            encode_utf8(attr(e, "value"@).unwrap()) == seq![48u8, 98u8] + #[trigger] digits_in(n as nat, 2)
                ==> variant_spec(e).value == n,
{
    let b = encode_utf8(attr(e, "value"@).unwrap());
    assert forall|n: u32| b == #[trigger] digits_in(n as nat, 10) implies variant_spec(e).value == n by {
        lemma_base_prefix_round_trip(n);
    }
    assert forall|n: u32| b == seq![48u8, 120u8] + #[trigger] digits_in(n as nat, 16) implies variant_spec(e).value
        == n by {
        lemma_base_prefix_round_trip(n);
    }
    assert forall|n: u32| b == seq![48u8, 98u8] + #[trigger] digits_in(n as nat, 2) implies variant_spec(e).value
        == n by {
        lemma_base_prefix_round_trip(n);
    }
}

} // verus!
