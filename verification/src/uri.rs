//! Descriptor URIs: `file://PATH` for a descriptor on disk, and
//! `builtin://zenoh/{source|sink}` for the connectors the runtime provides
//! itself.

use vstd::prelude::*;
use crate::config::Configuration;
use crate::errors::{ErrorKind, ZFError};
use crate::strutil::{has_prefix, spec_has_prefix, str_eq, suffix_from};

verus! {

/// The middleware a builtin node bridges to.
#[derive(Clone, Copy, Debug, PartialEq, Eq, Structural)]
pub enum Middleware {
    Zenoh,
}

/// The kind of node a descriptor resolves to.
#[derive(Clone, Copy, Debug, PartialEq, Eq, Structural)]
pub enum NodeKind {
    Source,
    Operator,
    Sink,
}

/// A parsed descriptor URI.
#[derive(Debug)]
pub enum URIStruct {
    File(String),
    Builtin(Middleware, NodeKind),
}

/// Splits a descriptor URI into its parsed form: the path behind `file://`,
/// or the middleware and kind behind `builtin://`.  Anything else is a
/// parsing error.
pub fn parse_uri(uri: &str) -> (r: Result<URIStruct, ZFError>)
    ensures
        spec_has_prefix(uri@, "file://"@) ==> (r matches Ok(u) && u matches URIStruct::File(p)
            && p@ == uri@.subrange("file://"@.len() as int, uri@.len() as int)),
        !spec_has_prefix(uri@, "file://"@) ==> (if uri@ == "builtin://zenoh/source"@ {
            r matches Ok(u) && u matches URIStruct::Builtin(mw, k) && mw == Middleware::Zenoh
                && k == NodeKind::Source
        } else if uri@ == "builtin://zenoh/sink"@ {
            r matches Ok(u) && u matches URIStruct::Builtin(mw, k) && mw == Middleware::Zenoh
                && k == NodeKind::Sink
        } else if uri@ == "builtin://zenoh/operator"@ {
            r matches Ok(u) && u matches URIStruct::Builtin(mw, k) && mw == Middleware::Zenoh
                && k == NodeKind::Operator
        } else {
            r matches Err(e) && e.kind == ErrorKind::ParsingError
        }),
{
    proof {
        reveal_strlit("file://");
        reveal_strlit("builtin://zenoh/source");
        reveal_strlit("builtin://zenoh/sink");
        reveal_strlit("builtin://zenoh/operator");
    }
    if has_prefix(uri, "file://") {
        let path = suffix_from(uri, 7);
        Ok(URIStruct::File(path))
    } else if str_eq(uri, "builtin://zenoh/source") {
        Ok(URIStruct::Builtin(Middleware::Zenoh, NodeKind::Source))
    } else if str_eq(uri, "builtin://zenoh/sink") {
        Ok(URIStruct::Builtin(Middleware::Zenoh, NodeKind::Sink))
    } else if str_eq(uri, "builtin://zenoh/operator") {
        Ok(URIStruct::Builtin(Middleware::Zenoh, NodeKind::Operator))
    } else {
        Err(ZFError::new(
            ErrorKind::ParsingError,
            String::from_str("expected a file:// or builtin://zenoh/{source|sink} URI"),
        ))
    }
}

/// The `configuration:` block of a synthesized descriptor, one indented
/// `key: value` line per entry.
pub open spec fn config_yaml_lines(s: Seq<(String, String)>) -> Seq<char>
    decreases s.len(),
{
    if s.len() == 0 {
        Seq::empty()
    } else {
        config_yaml_lines(s.drop_last()) + "  "@ + s.last().0@ + ": "@ + s.last().1@ + "\n"@
    }
}

/// The descriptor text synthesized for a builtin zenoh node of the given
/// kind (source or sink) and configuration.
pub open spec fn builtin_descriptor_text(kind: NodeKind, cfg: Configuration) -> Seq<char> {
    let head = if kind == NodeKind::Source {
        "id: zenoh-source\nuri: builtin://zenoh/source\noutput:\n  port_id: Data\n  port_type: _any_\nconfiguration:\n"@
    } else {
        "id: zenoh-sink\nuri: builtin://zenoh/sink\ninput:\n  port_id: Data\n  port_type: _any_\nconfiguration:\n"@
    };
    head + config_yaml_lines(cfg.map.entries@)
}

/// Renders the `configuration:` block of a synthesized descriptor.
fn render_config_lines(cfg: &Configuration, out: &mut String)
    ensures
        final(out)@ == old(out)@ + config_yaml_lines(cfg.map.entries@),
{
    let n = cfg.map.entries.len();
    for j in 0..n
        invariant
            n == cfg.map.entries@.len(),
            out@ == old(out)@ + config_yaml_lines(cfg.map.entries@.take(j as int)),
    {
        proof {
            assert(cfg.map.entries@.take(j + 1).drop_last() =~= cfg.map.entries@.take(j as int));
            assert(cfg.map.entries@.take(j + 1).last() == cfg.map.entries@[j as int]);
        }
        out.append("  ");
        out.append(cfg.map.entries[j].0.as_str());
        out.append(": ");
        out.append(cfg.map.entries[j].1.as_str());
        out.append("\n");
    }
    proof {
        assert(cfg.map.entries@.take(n as int) =~= cfg.map.entries@);
    }
}

/// Synthesizes the descriptor text for a builtin node.
///
/// Only zenoh sources and sinks exist as builtins: an operator is refused,
/// and a builtin node without a configuration is refused, since the
/// configuration carries the key expressions the connector needs.
pub fn make_builtin_descriptor(
    mw: Middleware,
    kind: NodeKind,
    configuration: &Option<Configuration>,
) -> (r: Result<String, ZFError>)
    ensures
        kind == NodeKind::Operator ==> (r matches Err(e) && e.kind == ErrorKind::Unimplemented),
        kind != NodeKind::Operator && configuration is None ==> (r matches Err(e) && e.kind
            == ErrorKind::MissingConfiguration),
        configuration matches Some(c) ==> (kind != NodeKind::Operator ==> (r matches Ok(t) && t@
            == builtin_descriptor_text(kind, *c))),
{
    match mw {
        Middleware::Zenoh => match kind {
            NodeKind::Operator => Err(ZFError::new(
                ErrorKind::Unimplemented,
                String::from_str("zenoh builtin nodes can only be a source or a sink"),
            )),
            NodeKind::Source => match configuration {
                Some(c) => {
                    let mut text = String::from_str(
                        "id: zenoh-source\nuri: builtin://zenoh/source\noutput:\n  port_id: Data\n  port_type: _any_\nconfiguration:\n",
                    );
                    render_config_lines(c, &mut text);
                    Ok(text)
                },
                None => Err(ZFError::new(
                    ErrorKind::MissingConfiguration,
                    String::from_str("a builtin zenoh source needs a configuration"),
                )),
            },
            NodeKind::Sink => match configuration {
                Some(c) => {
                    let mut text = String::from_str(
                        "id: zenoh-sink\nuri: builtin://zenoh/sink\ninput:\n  port_id: Data\n  port_type: _any_\nconfiguration:\n",
                    );
                    render_config_lines(c, &mut text);
                    Ok(text)
                },
                None => Err(ZFError::new(
                    ErrorKind::MissingConfiguration,
                    String::from_str("a builtin zenoh sink needs a configuration"),
                )),
            },
        },
    }
}

} // verus!
