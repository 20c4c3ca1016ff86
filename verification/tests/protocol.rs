use whale_land::iter_ext::{SingleIterError, SingleIterExt};
use whale_land::model::{Arg, ArgType, EnumVariant};
use whale_land::protocol_xml::{protocol_from_document, protocol_from_text, ProtocolDocumentError};
use whale_land::text::{parse_u32_base_prefix, IntParseError};
use whale_land::xml::{collect_text, XmlAttribute, XmlChild, XmlElement, XmlName};

fn name(local: &str) -> XmlName {
    XmlName { namespace_uri: None, local_part: local.to_string() }
}

fn elem(local: &str, attrs: &[(&str, &str)], children: Vec<XmlChild>) -> XmlChild {
    XmlChild::Element(XmlElement {
        name: name(local),
        attributes: attrs
            .iter()
            .map(|(k, v)| XmlAttribute { name: name(k), value: v.to_string() })
            .collect(),
        children,
    })
}

fn text(t: &str) -> XmlChild {
    XmlChild::Text(t.to_string())
}

#[test]
fn parse_numbers_with_base_prefix() {
    assert_eq!(parse_u32_base_prefix("42"), Ok(42));
    assert_eq!(parse_u32_base_prefix("0x1F"), Ok(31));
    assert_eq!(parse_u32_base_prefix("0xffffffff"), Ok(u32::MAX));
    assert_eq!(parse_u32_base_prefix("0b101"), Ok(5));
    assert_eq!(parse_u32_base_prefix("+7"), Ok(7));
    assert_eq!(parse_u32_base_prefix("007"), Ok(7));
    assert_eq!(parse_u32_base_prefix(""), Err(IntParseError::Empty));
    assert_eq!(parse_u32_base_prefix("0x"), Err(IntParseError::Empty));
    assert_eq!(parse_u32_base_prefix("+"), Err(IntParseError::InvalidDigit));
    assert_eq!(parse_u32_base_prefix("-1"), Err(IntParseError::InvalidDigit));
    assert_eq!(parse_u32_base_prefix("12a"), Err(IntParseError::InvalidDigit));
    assert_eq!(parse_u32_base_prefix("0b2"), Err(IntParseError::InvalidDigit));
    assert_eq!(parse_u32_base_prefix("4294967296"), Err(IntParseError::PosOverflow));
    assert_eq!(parse_u32_base_prefix("99999999999x"), Err(IntParseError::PosOverflow));
}

#[test]
fn parse_matches_std() {
    for s in ["0", "10", "+10", "-10", "", "+", "-", "4294967295", "4294967296", "1_0", "ab"] {
        let ours = parse_u32_base_prefix(s).ok();
        assert_eq!(ours, s.parse::<u32>().ok(), "{}", s);
    }
}

#[test]
fn arg_types_by_name() {
    assert_eq!(ArgType::try_from_str("uint"), Some(ArgType::Uint));
    assert_eq!(ArgType::try_from_str("new_id"), Some(ArgType::NewId));
    assert_eq!(ArgType::try_from_str("fd"), Some(ArgType::FileDescriptor));
    assert_eq!(ArgType::try_from_str("float"), None);
}

#[test]
fn single_item() {
    let mut none: Vec<u8> = vec![];
    assert_eq!(none.single(), Err(SingleIterError::NoItem));
    let mut one = vec![5];
    assert_eq!(one.single(), Ok(5));
    assert!(one.is_empty());
    let mut three = vec![1, 2, 3];
    assert_eq!(three.single(), Err(SingleIterError::MultipleItems { first: 1, second: 2 }));
    assert_eq!(three, vec![3]);
    assert_eq!(SingleIterError::<u8>::NoItem.message(), "iterator returned no item");
}

#[test]
fn text_collects_descendants() {
    let XmlChild::Element(e) = elem("description", &[], vec![text("a "), elem("b", &[], vec![text("b")]), XmlChild::Comment, text(" c")]) else {
        unreachable!()
    };
    assert_eq!(collect_text(&e), "a b c");
    assert_eq!(e.attribute_value("summary"), None);
}

fn sample_protocol() -> Vec<XmlChild> {
    vec![
        XmlChild::Comment,
        elem("protocol", &[("name", "wayland")], vec![
            elem("copyright", &[], vec![text("(c)")]),
            elem("interface", &[("name", "wl_display"), ("version", "1")], vec![
                elem("description", &[("summary", "core object")], vec![text("The core.")]),
                elem("request", &[("name", "sync")], vec![
                    elem("arg", &[("name", "callback"), ("type", "new_id"), ("interface", "wl_callback")], vec![]),
                ]),
                elem("event", &[("name", "error")], vec![
                    elem("description", &[("summary", "fatal error")], vec![]),
                    elem("arg", &[("name", "code"), ("type", "uint"), ("summary", "error code")], vec![]),
                ]),
                elem("enum", &[("name", "error")], vec![
                    elem("entry", &[("name", "invalid_object"), ("value", "0")], vec![]),
                    elem("entry", &[("name", "no_memory"), ("value", "0x2"), ("summary", "oom")], vec![]),
                ]),
            ]),
        ]),
    ]
}

#[test]
fn reads_a_protocol_document() {
    let p = protocol_from_document(&sample_protocol()).unwrap();
    assert_eq!(p.name, "wayland");
    assert_eq!(p.interfaces.len(), 1);
    let i = &p.interfaces[0];
    assert_eq!(i.name, "wl_display");
    assert_eq!(i.version, 1);
    assert_eq!(i.short_description.as_deref(), Some("core object"));
    assert_eq!(i.description.as_deref(), Some("The core."));
    assert_eq!(i.requests.len(), 1);
    assert_eq!(
        i.requests[0].args,
        vec![Arg {
            name: "callback".to_string(),
            arg_type: ArgType::NewId,
            interface: Some("wl_callback".to_string()),
            short_description: None,
        }]
    );
    assert_eq!(i.events[0].short_description.as_deref(), Some("fatal error"));
    assert_eq!(i.events[0].description.as_deref(), Some(""));
    assert_eq!(i.events[0].args[0].short_description.as_deref(), Some("error code"));
    assert_eq!(
        i.enums[0].variants[1],
        EnumVariant { name: "no_memory".to_string(), value: 2, short_description: Some("oom".to_string()) }
    );
}

#[test]
fn refuses_documents_without_one_protocol_root() {
    assert_eq!(protocol_from_document(&[]), Err(ProtocolDocumentError::NoRootElement));
    let two = vec![elem("protocol", &[("name", "a")], vec![]), elem("protocol", &[("name", "b")], vec![])];
    assert_eq!(protocol_from_document(&two), Err(ProtocolDocumentError::MultipleRootElements));
    let other = vec![elem("interface", &[("name", "a")], vec![])];
    assert_eq!(protocol_from_document(&other), Err(ProtocolDocumentError::RootNotProtocol));
}

#[test]
fn refuses_unreadable_elements() {
    let no_name = vec![elem("protocol", &[], vec![])];
    assert_eq!(protocol_from_document(&no_name), Err(ProtocolDocumentError::InvalidProtocol));
    let bad_type = vec![elem("protocol", &[("name", "p")], vec![
        elem("interface", &[("name", "i"), ("version", "1")], vec![
            elem("request", &[("name", "r")], vec![elem("arg", &[("name", "a"), ("type", "float")], vec![])]),
        ]),
    ])];
    assert_eq!(protocol_from_document(&bad_type), Err(ProtocolDocumentError::InvalidProtocol));
    let bad_version = vec![elem("protocol", &[("name", "p")], vec![
        elem("interface", &[("name", "i"), ("version", "0x1")], vec![]),
    ])];
    assert_eq!(protocol_from_document(&bad_version), Err(ProtocolDocumentError::InvalidProtocol));
}

const SAMPLE_XML: &str = "<?xml version=\"1.0\" encoding=\"UTF-8\"?>\
    <!-- sample -->\
    <protocol name=\"wayland\">\
    <copyright>(c)</copyright>\
    <interface name=\"wl_display\" version=\"1\">\
    <description summary=\"core object\">The core.</description>\
    <request name=\"sync\">\
    <arg name=\"callback\" type=\"new_id\" interface=\"wl_callback\"/>\
    </request>\
    <event name=\"error\">\
    <description summary=\"fatal error\"></description>\
    <arg name=\"code\" type=\"uint\" summary=\"error code\"/>\
    </event>\
    <enum name=\"error\">\
    <entry name=\"invalid_object\" value=\"0\"/>\
    <entry name=\"no_memory\" value=\"0x2\" summary=\"oom\"/>\
    </enum>\
    </interface>\
    </protocol>";

#[test]
fn reads_a_protocol_text() {
    let p = protocol_from_text(SAMPLE_XML).unwrap();
    assert_eq!(p, protocol_from_document(&sample_protocol()).unwrap());
    assert_eq!(p.name, "wayland");
    assert_eq!(p.interfaces[0].name, "wl_display");
    assert_eq!(p.interfaces[0].description.as_deref(), Some("The core."));
    assert_eq!(p.interfaces[0].enums[0].variants[1].value, 2);
}

#[test]
fn text_description_collects_nested_text() {
    let xml = "<protocol name=\"p\"><interface name=\"i\" version=\"3\">\
    <description summary=\"s\">one <b>two</b> three</description>\
    <description>last</description>\
    </interface></protocol>";
    let p = protocol_from_text(xml).unwrap();
    assert_eq!(p.interfaces[0].version, 3);
    assert_eq!(p.interfaces[0].description.as_deref(), Some("last"));
    assert_eq!(p.interfaces[0].short_description.as_deref(), Some("s"));
}

#[test]
fn refuses_malformed_or_foreign_text() {
    assert_eq!(protocol_from_text("<protocol name=\"a\">"), Err(ProtocolDocumentError::MalformedXml));
    assert_eq!(protocol_from_text("<protocol name=\"a\"></interface>"), Err(ProtocolDocumentError::MalformedXml));
    assert_eq!(protocol_from_text("<interface name=\"a\"/>"), Err(ProtocolDocumentError::RootNotProtocol));
    assert_eq!(protocol_from_text("<protocol/>"), Err(ProtocolDocumentError::InvalidProtocol));
    assert_eq!(
        protocol_from_text("<protocol name=\"a\"/>"),
        Ok(whale_land::model::Protocol { name: "a".to_string(), interfaces: vec![] })
    );
}

#[test]
fn formatted_numbers_read_back() {
    for n in [0u32, 1, 9, 10, 35, 36, 255, 256, 0x1234_5678, u32::MAX] {
        assert_eq!(parse_u32_base_prefix(&format!("{}", n)), Ok(n));
        assert_eq!(parse_u32_base_prefix(&format!("{:#x}", n)), Ok(n));
        assert_eq!(parse_u32_base_prefix(&format!("{:#b}", n)), Ok(n));
    }
}

#[test]
fn protocol_lists_interfaces_in_order() {
    let xml = "<protocol name=\"p\">\
    <interface name=\"first\" version=\"1\"/>\
    <copyright>x</copyright>\
    <other/>\
    <interface name=\"second\" version=\"2\">\
    <event name=\"e\"/><request name=\"r1\"/><enum name=\"n\"/><request name=\"r2\"/>\
    </interface>\
    </protocol>";
    let p = protocol_from_text(xml).unwrap();
    let names: Vec<&str> = p.interfaces.iter().map(|i| i.name.as_str()).collect();
    assert_eq!(names, vec!["first", "second"]);
    let second = &p.interfaces[1];
    let requests: Vec<&str> = second.requests.iter().map(|r| r.name.as_str()).collect();
    assert_eq!(requests, vec!["r1", "r2"]);
    assert_eq!(second.events.len(), 1);
    assert_eq!(second.enums.len(), 1);
}
