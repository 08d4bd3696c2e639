//! Renderer-facing card text: the status dot's color, the card title, and
//! the ports line.  The terminal layer draws these; it computes none of them.

use vstd::prelude::*;
use vstd::string::{StrSliceExecFns, StringExecFns};
use crate::models::{Container, Port};
use crate::sort::is_running;
use crate::text::{dec_str, u64_to_string};

verus! {

/// The color of a container card's status dot.
#[derive(Clone, Copy, PartialEq, Eq, Debug, Structural)]
pub enum StatusColor {
    /// Green: running and healthy (or running with no health probe).
    Success,
    /// Red: not running, or running and unhealthy.
    Error,
    /// Yellow: running with a health probe in an unknown state.
    Warning,
}

/// The status color a container's card shows.
pub open spec fn status_color_spec(c: Container) -> StatusColor {
    if is_running(c) {
        match c.health {
            Some(h) => {
                if h.status@ == "healthy"@ {
                    StatusColor::Success
                } else if h.status@ == "unhealthy"@ {
                    StatusColor::Error
                } else {
                    StatusColor::Warning
                }
            },
            None => StatusColor::Success,
        }
    } else {
        StatusColor::Error
    }
}

/// The status color of one container: green when running and healthy (or
/// unprobed), yellow when its probe reports neither healthy nor unhealthy,
/// red otherwise.
pub fn status_color(c: &Container) -> (r: StatusColor)
    ensures
        r == status_color_spec(*c),
{
    if crate::text::str_eq(c.state.as_str(), "running") {
        match &c.health {
            Some(h) => {
                if crate::text::str_eq(h.status.as_str(), "healthy") {
                    StatusColor::Success
                } else if crate::text::str_eq(h.status.as_str(), "unhealthy") {
                    StatusColor::Error
                } else {
                    StatusColor::Warning
                }
            },
            None => StatusColor::Success,
        }
    } else {
        StatusColor::Error
    }
}

/// The lowercase form of a string, as `str::to_lowercase` computes it; the
/// result depends on the characters alone.
pub uninterp spec fn lower_of(s: Seq<char>) -> Seq<char>;

/// Relies on str::to_lowercase, for protocol names on the ports line: it
/// returns the lowercase equivalent of its input, and maps an empty string
/// to an empty string.
#[verifier::external_body]
fn lowercase(s: &str) -> (r: String)
    ensures
        r@ == lower_of(s@),
        s@.len() == 0 ==> r@.len() == 0,
{
    s.to_lowercase()
}

/// One port as the ports line shows it: bind address and external port when
/// present, then the internal port, colon-separated, then a slash and the
/// protocol in lower case.
pub open spec fn spec_format_port(p: Port) -> Seq<char> {
    let tail = dec_str(p.internal as nat);
    let with_ext = match p.external {
        Some(e) => dec_str(e as nat) + seq![':'] + tail,
        None => tail,
    };
    let addr_port = match p.ip {
        Some(ip) => if ip@.len() > 0 {
            ip@ + seq![':'] + with_ext
        } else {
            with_ext
        },
        None => with_ext,
    };
    addr_port + seq!['/'] + lower_of(p.protocol@)
}

/// A non-empty port list, comma-separated.
pub open spec fn spec_ports_join(ps: Seq<Port>) -> Seq<char>
    decreases ps.len(),
{
    if ps.len() == 0 {
        Seq::empty()
    } else if ps.len() == 1 {
        spec_format_port(ps[0])
    } else {
        spec_ports_join(ps.drop_last()) + ", "@ + spec_format_port(ps.last())
    }
}

/// The whole ports line: `"None"` for a container with no published ports,
/// else the ports comma-separated.
pub open spec fn spec_format_ports(ps: Seq<Port>) -> Seq<char> {
    if ps.len() == 0 {
        "None"@
    } else {
        spec_ports_join(ps)
    }
}

/// One port's text.
fn format_port(p: &Port) -> (r: String)
    ensures
        r@ == spec_format_port(*p),
{
    proof {
        reveal_strlit(":");
        reveal_strlit("/");
    }
    let mut s = String::new();
    match &p.ip {
        Some(ip) => {
            if ip.as_str().unicode_len() > 0 {
                s.append(ip.as_str());
                s.append(":");
            }
        },
        None => {},
    }
    match p.external {
        Some(e) => {
            let ext = u64_to_string(e as u64);
            s.append(ext.as_str());
            s.append(":");
        },
        None => {},
    }
    let internal = u64_to_string(p.internal as u64);
    s.append(internal.as_str());
    s.append("/");
    let proto = lowercase(p.protocol.as_str());
    s.append(proto.as_str());
    proof {
        assert(s@ =~= spec_format_port(*p));
    }
    s
}

/// The ports line of a container card.
pub fn format_ports(ports: &Vec<Port>) -> (r: String)
    ensures
        r@ == spec_format_ports(ports@),
{
    if ports.len() == 0 {
        proof {
            reveal_strlit("None");
        }
        return String::from_str("None");
    }
    proof {
        reveal_strlit(", ");
    }
    let mut out = format_port(&ports[0]);
    proof {
        assert(ports@.take(1) =~= seq![ports@[0]]);
        assert(spec_ports_join(ports@.take(1)) == spec_format_port(ports@[0]));
    }
    let mut i: usize = 1;
    while i < ports.len()
        invariant
            1 <= i <= ports@.len(),
            out@ == spec_ports_join(ports@.take(i as int)),
        decreases ports@.len() - i,
    {
        out.append(", ");
        let next = format_port(&ports[i]);
        out.append(next.as_str());
        proof {
            assert(ports@.take(i as int + 1).drop_last() =~= ports@.take(i as int));
            assert(ports@.take(i as int + 1).last() == ports@[i as int]);
        }
        i += 1;
    }
    proof {
        assert(ports@.take(ports@.len() as int) =~= ports@);
    }
    out
}

/// The display names of a container, comma-separated; empty for a container
/// with no names.
pub open spec fn spec_names_join(ns: Seq<String>) -> Seq<char>
    decreases ns.len(),
{
    if ns.len() == 0 {
        Seq::empty()
    } else if ns.len() == 1 {
        ns[0]@
    } else {
        spec_names_join(ns.drop_last()) + ", "@ + ns.last()@
    }
}

/// The first characters of an id that the card title shows: the first 12,
/// or the whole id when it is shorter.
pub open spec fn spec_short_id(id: Seq<char>) -> Seq<char> {
    if id.len() < 12 {
        id
    } else {
        id.subrange(0, 12)
    }
}

/// A card's title: the names, comma-separated, then the shortened id in
/// parentheses.
pub open spec fn spec_container_title(c: Container) -> Seq<char> {
    spec_names_join(c.names@) + " ("@ + spec_short_id(c.id@) + ")"@
}

/// The title of one container's card.
pub fn container_title(c: &Container) -> (r: String)
    ensures
        r@ == spec_container_title(*c),
{
    proof {
        reveal_strlit(", ");
        reveal_strlit(" (");
        reveal_strlit(")");
    }
    let mut s = String::new();
    let mut i: usize = 0;
    while i < c.names.len()
        invariant
            i <= c.names@.len(),
            s@ == spec_names_join(c.names@.take(i as int)),
        decreases c.names@.len() - i,
    {
        if i > 0 {
            s.append(", ");
        }
        s.append(c.names[i].as_str());
        proof {
            assert(c.names@.take(i as int + 1).drop_last() =~= c.names@.take(i as int));
            assert(c.names@.take(i as int + 1).last() == c.names@[i as int]);
            if i == 0 {
                assert(c.names@.take(1) =~= seq![c.names@[0]]);
            }
        }
        i += 1;
    }
    proof {
        assert(c.names@.take(c.names@.len() as int) =~= c.names@);
    }
    s.append(" (");
    let id = c.id.as_str();
    let id_len = id.unicode_len();
    let cut = if id_len < 12 {
        id_len
    } else {
        12
    };
    let short = id.substring_char(0, cut);
    s.append(short);
    s.append(")");
    proof {
        assert(s@ =~= spec_container_title(*c));
    }
    s
}

} // verus!
