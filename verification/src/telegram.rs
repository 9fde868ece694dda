//! Message formatting for the chat consumer.
//!
//! Each change event received from the bus becomes one HTML-formatted chat
//! message. A feed entry's content is truncated to the configured length,
//! rendered from HTML to plain text and then HTML-escaped; a registry
//! release becomes a fixed-shape announcement. Sending the messages is the
//! embedding program's concern.

use crate::utils::low_byte;
use vstd::prelude::*;
use vstd::string::StrSliceExecFns;
use vstd::string::StringExecFns;

verus! {

/// What html2text's `from_read` renders a byte document to at a given
/// width; the result depends on the bytes and the width alone.
pub uninterp spec fn rendered_text(bytes: Seq<u8>, width: usize) -> Option<Seq<char>>;

/// Relies on html2text's `from_read`: renders an HTML document to plain
/// text wrapped to `width` columns; `None` when the renderer fails. A
/// width of zero is narrower than the renderer accepts. Residual trust:
/// the renderer is relied on to report failure through its error result
/// rather than panic; its internal asserts are beyond what its contract
/// here can exclude.
#[verifier::external_body]
fn render_html(bytes: &[u8], width: usize) -> (r: Option<String>)
    requires
        1 <= width,
    ensures
        r.deep_view() == rendered_text(bytes@, width),
{
    html2text::from_read(bytes, width).ok()
}

/// The entity a character is escaped to, if it is one of the six reserved
/// characters, as html_escape's `encode_safe` documents them.
pub open spec fn escape_char(c: char) -> Seq<char> {
    if c == '&' {
        seq!['&', 'a', 'm', 'p', ';']
    } else if c == '<' {
        seq!['&', 'l', 't', ';']
    } else if c == '>' {
        seq!['&', 'g', 't', ';']
    } else if c == '"' {
        seq!['&', 'q', 'u', 'o', 't', ';']
    } else if c == '\'' {
        seq!['&', '#', 'x', '2', '7', ';']
    } else if c == '/' {
        seq!['&', '#', 'x', '2', 'F', ';']
    } else {
        seq![c]
    }
}

/// A text with every reserved character escaped.
pub open spec fn escape_text(s: Seq<char>) -> Seq<char>
    decreases s.len(),
{
    if s.len() == 0 {
        Seq::empty()
    } else {
        escape_char(s[0]) + escape_text(s.drop_first())
    }
}

/// Relies on html_escape's `encode_safe`: escapes `&`, `<`, `>`, `"`, `'`
/// and `/` to HTML entities and leaves every other character as it is.
#[verifier::external_body]
fn escape_html(s: &str) -> (r: String)
    ensures
        r@ == escape_text(s@),
{
    html_escape::encode_safe(s).into_owned()
}

/// The low byte of each character of the truncated content, followed by an
/// ellipsis marker: what the renderer is fed when content is over length.
pub open spec fn truncated_bytes(c: Seq<char>, max_len: usize) -> Seq<u8> {
    let kept = if c.len() <= max_len as nat {
        c
    } else {
        c.take(max_len as int)
    };
    kept.map_values(|ch: char| low_byte(ch)) + seq![46u8, 46u8, 46u8, 10u8, 10u8]
}

/// The bytes handed to the renderer for a feed entry's content: the UTF-8
/// bytes as they are while they fit `max_len`, else the truncated form.
pub open spec fn content_render_input(c: Seq<char>, max_len: usize) -> Seq<u8> {
    if vstd::utf8::encode_utf8(c).len() > max_len as nat {
        truncated_bytes(c, max_len)
    } else {
        vstd::utf8::encode_utf8(c)
    }
}

/// The effective content length bound: one less than the configured bound,
/// wrapping at zero.
pub open spec fn effective_max_len(content_max_length: usize) -> usize {
    if content_max_length == 0 {
        usize::MAX
    } else {
        (content_max_length - 1) as usize
    }
}

/// The rendered-and-escaped content block of a feed message: empty for an
/// entry without content, else the entry's content truncated, rendered at
/// width 200, given a trailing newline, and escaped; `None` when the
/// renderer fails.
pub open spec fn feed_content_block(c: Option<Seq<char>>, content_max_length: usize) -> Option<
    Seq<char>,
> {
    match c {
        None => Some(escape_text(Seq::empty())),
        Some(text) => match rendered_text(
            content_render_input(text, effective_max_len(content_max_length)),
            200,
        ) {
            None => None,
            Some(rendered) => Some(escape_text(rendered.push('\n'))),
        },
    }
}

/// The link part of a feed message.
pub open spec fn feed_link_part(link: Option<Seq<char>>) -> Seq<char> {
    match link {
        Some(l) => "[ <a href=\""@ + l + "\">Feed</a> ]"@,
        None => "[ Feed ]"@,
    }
}

/// The whole chat message announcing a feed entry.
pub open spec fn spec_feed_message(
    title: Option<Seq<char>>,
    link: Option<Seq<char>>,
    content: Option<Seq<char>>,
    content_max_length: usize,
) -> Option<Seq<char>> {
    match feed_content_block(content, content_max_length) {
        None => None,
        Some(block) => Some(
            "<b>"@ + feed_link_part(link) + "  "@ + (match title {
                Some(t) => t,
                None => Seq::empty(),
            }) + "</b>\n\n"@ + block,
        ),
    }
}

fn truncate_content(c: &String, max_len: usize) -> (r: Vec<u8>)
    ensures
        r@ == truncated_bytes(c@, max_len),
{
    let total = c.as_str().unicode_len();
    let keep = if total <= max_len {
        total
    } else {
        max_len
    };
    let mut out: Vec<u8> = Vec::new();
    let mut i: usize = 0;
    let ghost kept = if c@.len() <= max_len as nat {
        c@
    } else {
        c@.take(max_len as int)
    };
    while i < keep
        invariant
            keep <= c@.len(),
            i <= keep,
            keep as nat == kept.len(),
            kept == (if c@.len() <= max_len as nat {
                c@
            } else {
                c@.take(max_len as int)
            }),
            out@ =~= kept.map_values(|ch: char| low_byte(ch)).take(i as int),
        decreases keep - i,
    {
        let ch = c.as_str().get_char(i);
        out.push(crate::utils::char_low_byte(ch));
        proof {
            assert(kept[i as int] == c@[i as int]);
        }
        i += 1;
    }
    out.push(46u8);
    out.push(46u8);
    out.push(46u8);
    out.push(10u8);
    out.push(10u8);
    proof {
        assert(kept.map_values(|ch: char| low_byte(ch)).take(keep as int) =~= kept.map_values(
        |ch: char| low_byte(ch)));
        assert(out@ =~= truncated_bytes(c@, max_len));
    }
    out
}

/// Builds the chat message announcing a feed entry: the entry's content,
/// truncated to the configured length, rendered to plain text and escaped,
/// under a bold header of the entry's first link and its title. `None` when
/// the text renderer fails on the content.
pub fn feed_message(
    title: &Option<String>,
    link: &Option<String>,
    content: &Option<String>,
    content_max_length: usize,
) -> (r: Option<String>)
    ensures
        r.deep_view() == spec_feed_message(
            title.deep_view(),
            link.deep_view(),
            content.deep_view(),
            content_max_length,
        ),
{
    let max_len = if content_max_length == 0 {
        usize::MAX
    } else {
        content_max_length - 1
    };
    let block: String = match content {
        None => String::new(),
        Some(text) => {
            proof {
                assert(max_len == effective_max_len(content_max_length));
            }
            let content_bytes = text.as_str().as_bytes();
            let rendered = if content_bytes.len() > max_len {
                let bytes = truncate_content(text, max_len);
                proof {
                    assert(content_render_input(text@, max_len) == bytes@);
                }
                render_html(bytes.as_slice(), 200)
            } else {
                proof {
                    assert(content_render_input(text@, max_len) == vstd::utf8::encode_utf8(text@));
                }
                render_html(content_bytes, 200)
            };
            proof {
                assert(rendered.deep_view() == rendered_text(
                    content_render_input(text@, effective_max_len(content_max_length)),
                    200,
                ));
            }
            match rendered {
                None => {
                    return None;
                },
                Some(mut t) => {
                    t.append("\n");
                    proof {
                        reveal_strlit("\n");
                        let rt = rendered_text(
                            content_render_input(text@, effective_max_len(content_max_length)),
                            200,
                        );
                        assert(rt matches Some(x) && t@ =~= x.push('\n'));
                    }
                    escape_html(t.as_str())
                },
            }
        },
    };
    let mut msg = "<b>".to_owned();
    match link {
        Some(l) => {
            msg.append("[ <a href=\"");
            msg.append(l.as_str());
            msg.append("\">Feed</a> ]");
        },
        None => {
            msg.append("[ Feed ]");
        },
    }
    msg.append("  ");
    match title {
        Some(t) => {
            msg.append(t.as_str());
        },
        None => {},
    }
    msg.append("</b>\n\n");
    msg.append(block.as_str());
    proof {
        let sm = spec_feed_message(
            title.deep_view(),
            link.deep_view(),
            content.deep_view(),
            content_max_length,
        );
        assert(sm matches Some(b) && msg@ =~= b);
    }
    Some(msg)
}

/// The whole chat message announcing a registry release.
pub open spec fn spec_crates_message(
    name: Seq<char>,
    vers: Seq<char>,
    links: Option<Seq<char>>,
    yanked: bool,
) -> Seq<char> {
    "[ <a href=\"https://crates.io/crates/"@ + name + "\">Crates.io</a> ] New update: <b>"@ + name
        + "</b> \n Version: "@ + vers + "\n                         "@ + (if yanked {
        "\nYanked: true"@
    } else {
        ""@
    }) + "\n                         "@ + (match links {
        Some(l) => "\nLinks: "@ + l,
        None => ""@,
    })
}

/// Builds the chat message announcing a registry release: a fixed-shape
/// HTML announcement of the name, version, withdrawal state and links.
pub fn crates_message(name: &String, vers: &String, links: &Option<String>, yanked: bool) -> (r:
    String)
    ensures
        r@ == spec_crates_message(name@, vers@, links.deep_view(), yanked),
{
    let mut msg = "[ <a href=\"https://crates.io/crates/".to_owned();
    msg.append(name.as_str());
    msg.append("\">Crates.io</a> ] New update: <b>");
    msg.append(name.as_str());
    msg.append("</b> \n Version: ");
    msg.append(vers.as_str());
    msg.append("\n                         ");
    if yanked {
        msg.append("\nYanked: true");
    }
    msg.append("\n                         ");
    match links {
        Some(l) => {
            msg.append("\nLinks: ");
            msg.append(l.as_str());
        },
        None => {},
    }
    proof {
        reveal_strlit("");
        assert(""@ =~= Seq::<char>::empty());
        assert(msg@ =~= spec_crates_message(name@, vers@, links.deep_view(), yanked));
    }
    msg
}

} // verus!
