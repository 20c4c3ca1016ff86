//! The model of a Wayland protocol description: a protocol is a set of
//! interfaces, each with requests, events and enumerations.

use vstd::prelude::*;
use crate::text::str_equal;

verus! {

/// The characters of an optional string.
pub open spec fn opt_chars(o: Option<String>) -> Option<Seq<char>> {
    match o {
        Some(s) => Some(s@),
        None => None,
    }
}

/// A protocol: its name and its interfaces.
#[derive(Clone, Debug, PartialEq, Eq, Hash, PartialOrd, Ord)]
pub struct Protocol {
    pub name: String,
    pub interfaces: Vec<Interface>,
}

/// An interface: its name, version, descriptions, requests, events and
/// enumerations.
#[derive(Clone, Debug, PartialEq, Eq, Hash, PartialOrd, Ord)]
pub struct Interface {
    pub name: String,
    pub version: u32,
    pub short_description: Option<String>,
    pub description: Option<String>,
    pub requests: Vec<Procedure>,
    pub events: Vec<Procedure>,
    pub enums: Vec<Enum>,
}

/// A request or an event: its name, descriptions and arguments.
#[derive(Clone, Debug, PartialEq, Eq, Hash, PartialOrd, Ord)]
pub struct Procedure {
    pub name: String,
    pub short_description: Option<String>,
    pub description: Option<String>,
    pub args: Vec<Arg>,
}

/// An enumeration: its name, descriptions and variants.
#[derive(Clone, Debug, PartialEq, Eq, Hash, PartialOrd, Ord)]
pub struct Enum {
    pub name: String,
    pub short_description: Option<String>,
    pub description: Option<String>,
    pub variants: Vec<EnumVariant>,
}

/// A variant of an enumeration: its name, value and summary.
#[derive(Clone, Debug, PartialEq, Eq, Hash, PartialOrd, Ord)]
pub struct EnumVariant {
    pub name: String,
    pub value: u32,
    pub short_description: Option<String>,
}

/// An argument: its name, type, interface and summary.
#[derive(Clone, Debug, PartialEq, Eq, Hash, PartialOrd, Ord)]
pub struct Arg {
    pub name: String,
    pub arg_type: ArgType,
    pub interface: Option<String>,
    pub short_description: Option<String>,
}

/// The wire type of an argument.
#[derive(Clone, Copy, Debug, PartialEq, Eq, Structural, Hash, PartialOrd, Ord)]
pub enum ArgType {
    Uint,
    Int,
    Fixed,
    String,
    ObjectId,
    NewId,
    Array,
    FileDescriptor,
}

/// The abstract content of an `Arg`.
pub struct ArgView {
    pub name: Seq<char>,
    pub arg_type: ArgType,
    pub interface: Option<Seq<char>>,
    pub short_description: Option<Seq<char>>,
}

/// The abstract content of an `EnumVariant`.
pub struct EnumVariantView {
    pub name: Seq<char>,
    pub value: u32,
    pub short_description: Option<Seq<char>>,
}

/// The abstract content of an `Enum`.
pub struct EnumView {
    pub name: Seq<char>,
    pub short_description: Option<Seq<char>>,
    pub description: Option<Seq<char>>,
    pub variants: Seq<EnumVariantView>,
}

/// The abstract content of a `Procedure`.
pub struct ProcedureView {
    pub name: Seq<char>,
    pub short_description: Option<Seq<char>>,
    pub description: Option<Seq<char>>,
    pub args: Seq<ArgView>,
}

/// The abstract content of an `Interface`.
pub struct InterfaceView {
    pub name: Seq<char>,
    pub version: u32,
    pub short_description: Option<Seq<char>>,
    pub description: Option<Seq<char>>,
    pub requests: Seq<ProcedureView>,
    pub events: Seq<ProcedureView>,
    pub enums: Seq<EnumView>,
}

/// The abstract content of a `Protocol`.
pub struct ProtocolView {
    pub name: Seq<char>,
    pub interfaces: Seq<InterfaceView>,
}

impl View for Arg {
    type V = ArgView;

    open spec fn view(&self) -> ArgView {
        ArgView {
            name: self.name@,
            arg_type: self.arg_type,
            interface: opt_chars(self.interface),
            short_description: opt_chars(self.short_description),
        }
    }
}

impl View for EnumVariant {
    type V = EnumVariantView;

    open spec fn view(&self) -> EnumVariantView {
        EnumVariantView {
            name: self.name@,
            value: self.value,
            short_description: opt_chars(self.short_description),
        }
    }
}

impl View for Enum {
    type V = EnumView;

    open spec fn view(&self) -> EnumView {
        EnumView {
            name: self.name@,
            short_description: opt_chars(self.short_description),
            description: opt_chars(self.description),
            variants: self.variants@.map_values(|v: EnumVariant| v@),
        }
    }
}

impl View for Procedure {
    type V = ProcedureView;

    open spec fn view(&self) -> ProcedureView {
        ProcedureView {
            name: self.name@,
            short_description: opt_chars(self.short_description),
            description: opt_chars(self.description),
            args: self.args@.map_values(|a: Arg| a@),
        }
    }
}

impl View for Interface {
    type V = InterfaceView;

    open spec fn view(&self) -> InterfaceView {
        InterfaceView {
            name: self.name@,
            version: self.version,
            short_description: opt_chars(self.short_description),
            description: opt_chars(self.description),
            requests: self.requests@.map_values(|p: Procedure| p@),
            events: self.events@.map_values(|p: Procedure| p@),
            enums: self.enums@.map_values(|e: Enum| e@),
        }
    }
}

impl View for Protocol {
    type V = ProtocolView;

    open spec fn view(&self) -> ProtocolView {
        ProtocolView {
            name: self.name@,
            interfaces: self.interfaces@.map_values(|i: Interface| i@),
        }
    }
}

/// The argument type that a `type="..."` attribute names.
pub open spec fn arg_type_named(s: Seq<char>) -> Option<ArgType> {
    if s == "uint"@ {
        Some(ArgType::Uint)
    } else if s == "int"@ {
        Some(ArgType::Int)
    } else if s == "fixed"@ {
        Some(ArgType::Fixed)
    } else if s == "string"@ {
        Some(ArgType::String)
    } else if s == "object"@ {
        Some(ArgType::ObjectId)
    } else if s == "new_id"@ {
        Some(ArgType::NewId)
    } else if s == "array"@ {
        Some(ArgType::Array)
    } else if s == "fd"@ {
        Some(ArgType::FileDescriptor)
    } else {
        None
    }
}

impl ArgType {
    /// The argument type that a `type="..."` attribute names, if any.
    pub fn try_from_str(s: &str) -> (res: Option<Self>)
        ensures
            res == arg_type_named(s@),
    {
        if str_equal(s, "uint") {
            Some(Self::Uint)
        } else if str_equal(s, "int") {
            Some(Self::Int)
        } else if str_equal(s, "fixed") {
            Some(Self::Fixed)
        } else if str_equal(s, "string") {
            Some(Self::String)
        } else if str_equal(s, "object") {
            Some(Self::ObjectId)
        } else if str_equal(s, "new_id") {
            Some(Self::NewId)
        } else if str_equal(s, "array") {
            Some(Self::Array)
        } else if str_equal(s, "fd") {
            Some(Self::FileDescriptor)
        } else {
            None
        }
    }
}


/// Each of the eight type names of the wire protocol names its own argument
/// type, no other name names one, and two names that name the same type are
/// the same name.
pub proof fn lemma_arg_type_names(s: Seq<char>, other: Seq<char>)
    ensures
        arg_type_named("uint"@) == Some(ArgType::Uint),
        arg_type_named("int"@) == Some(ArgType::Int),
        arg_type_named("fixed"@) == Some(ArgType::Fixed),
        arg_type_named("string"@) == Some(ArgType::String),
        arg_type_named("object"@) == Some(ArgType::ObjectId),
        arg_type_named("new_id"@) == Some(ArgType::NewId),
        arg_type_named("array"@) == Some(ArgType::Array),
        arg_type_named("fd"@) == Some(ArgType::FileDescriptor),
        arg_type_named(s) is Some <==> (s == "uint"@ || s == "int"@ || s == "fixed"@ || s == "string"@
            || s == "object"@ || s == "new_id"@ || s == "array"@ || s == "fd"@),
        arg_type_named(s) is Some && arg_type_named(s) == arg_type_named(other) ==> s == other,
{
    reveal_strlit("uint");
    reveal_strlit("int");
    reveal_strlit("fixed");
    reveal_strlit("string");
    reveal_strlit("object");
    reveal_strlit("new_id");
    reveal_strlit("array");
    reveal_strlit("fd");
    assert("uint"@.len() == 4 && "int"@.len() == 3 && "fd"@.len() == 2);
    assert("fixed"@.len() == 5 && "array"@.len() == 5 && "fixed"@[0] != "array"@[0]);
    assert("string"@.len() == 6 && "object"@.len() == 6 && "new_id"@.len() == 6);
    assert("string"@[0] == 's' && "object"@[0] == 'o' && "new_id"@[0] == 'n');
}

} // verus!
