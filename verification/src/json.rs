//! JSON response bodies. The encoding of a single string value is delegated
//! to the JSON library behind a trusted wrapper; the assembly of the items
//! object around those encoded values is verified here.

use vstd::prelude::*;
use vstd::string::StringExecFns;
use serde_json::Error as SerdeJsonError;
use crate::numbers::dec_str;
use crate::numbers::u64_to_dec;

verus! {

/// The exact JSON text the encoder produces for a string value, surrounding
/// quotes included. It depends on the characters alone.
pub uninterp spec fn json_text_of(s: Seq<char>) -> Seq<char>;

/// Whether the encoder copies a character verbatim: anything but the quote,
/// the backslash and the control characters below space.
pub open spec fn json_plain_char(c: char) -> bool {
    c != '"' && c != '\\' && c as int >= 32
}

/// Whether every character of the text is one the encoder copies verbatim.
pub open spec fn all_json_plain(s: Seq<char>) -> bool {
    forall|i: int| 0 <= i < s.len() ==> json_plain_char(#[trigger] s[i])
}

#[verifier::external_type_specification]
#[verifier::external_body]
pub struct ExJsonError(SerdeJsonError);

/// Relies on serde_json::to_string for a string value. Encoding a string
/// cannot fail: the documented failure conditions are a `Serialize`
/// implementation that fails or a map with non-string keys, and a string
/// has neither. The result depends on the characters alone, and the escape
/// table touches only '"', '\\' and the characters below space, copying
/// everything else verbatim between the surrounding quotes.
#[verifier::external_body]
fn encode_json_string(s: &String) -> (r: Result<String, SerdeJsonError>)
    ensures
        r is Ok,
        r matches Ok(t) ==> t@ == json_text_of(s@),
        r matches Ok(t) ==> (all_json_plain(s@) ==> t@ == seq!['"'] + s@ + seq!['"']),
{
    serde_json::to_string(s)
}

/// Relies on serde_json::Error's Display implementation to render the
/// failure's description for the log; nothing is assumed of the text.
#[verifier::external_body]
fn json_error_detail(e: &SerdeJsonError) -> String {
    format!("{}", e)
}

/// The object member for one item: the id rendered in decimal and quoted as
/// a JSON key, a colon, and the already encoded title.
pub open spec fn obj_member(id: u64, title_text: Seq<char>) -> Seq<char> {
    seq!['"'] + dec_str(id as nat) + seq!['"', ':'] + title_text
}

/// The members for a sequence of entries with encoded titles, in order,
/// separated by commas.
pub open spec fn obj_members(s: Seq<(u64, Seq<char>)>) -> Seq<char>
    decreases s.len(),
{
    if s.len() == 0 {
        Seq::empty()
    } else if s.len() == 1 {
        obj_member(s[0].0, s[0].1)
    } else {
        obj_members(s.drop_last()) + seq![','] + obj_member(s.last().0, s.last().1)
    }
}

/// The JSON object for stored entries: each stringified id mapped to its
/// encoded title, in store order, between braces.
pub open spec fn items_json(entries: Seq<(u64, Seq<char>)>) -> Seq<char> {
    seq!['{'] + obj_members(
        entries.map_values(|p: (u64, Seq<char>)| (p.0, json_text_of(p.1))),
    ) + seq!['}']
}

/// Renders listed items as the JSON object from stringified id to title.
pub fn render_items_json(items: &Vec<(u64, String)>) -> (r: Result<String, crate::error::Error>)
    ensures
        r matches Ok(t) && t@ == items_json(items@.map_values(|p: (u64, String)| (p.0, p.1@))),
{
    let ghost entries = items@.map_values(|p: (u64, String)| (p.0, p.1@));
    let ghost enc = entries.map_values(|p: (u64, Seq<char>)| (p.0, json_text_of(p.1)));
    let n = items.len();
    let mut out = String::from_str("{");
    proof {
        reveal_strlit("{");
        assert(out@ =~= seq!['{'] + obj_members(enc.subrange(0, 0)));
    }
    let mut i: usize = 0;
    while i < n
        invariant
            n == items@.len(),
            0 <= i <= n,
            entries == items@.map_values(|p: (u64, String)| (p.0, p.1@)),
            enc == entries.map_values(|p: (u64, Seq<char>)| (p.0, json_text_of(p.1))),
            out@ == seq!['{'] + obj_members(enc.subrange(0, i as int)),
        decreases n - i,
    {
        let encoded = match encode_json_string(&items[i].1) {
            Ok(t) => t,
            Err(e) => {
                return Err(crate::error::Error::SerializationFailure(json_error_detail(&e)));
            },
        };
        if i > 0 {
            out.append(",");
        }
        out.append("\"");
        let id_text = u64_to_dec(items[i].0);
        out.append(id_text.as_str());
        out.append("\":");
        out.append(encoded.as_str());
        proof {
            reveal_strlit(",");
            reveal_strlit("\"");
            reveal_strlit("\":");
            let pre = enc.subrange(0, i as int);
            let cur = enc.subrange(0, i + 1);
            assert(cur.drop_last() =~= pre);
            assert(cur.last() == (items@[i as int].0, json_text_of(items@[i as int].1@)));
            assert(out@ =~= seq!['{'] + obj_members(cur));
        }
        i = i + 1;
    }
    out.append("}");
    proof {
        reveal_strlit("}");
        assert(enc.subrange(0, n as int) =~= enc);
        assert(out@ =~= items_json(entries));
    }
    Ok(out)
}

} // verus!
