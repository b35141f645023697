//! The chat-completions request: endpoint, credential header and JSON body.
use vstd::prelude::*;
use vstd::string::StringExecFns;
use crate::items::{role_name, ChatMessage, Role};

verus! {

/// The JSON string literal that serde_json writes for `s`, quotes included.
pub uninterp spec fn json_quoted(s: Seq<char>) -> Seq<char>;

/// Relies on serde_json::to_string on a `str`: the escaped, quoted JSON
/// string. Serialising a `str` does not fail.
#[verifier::external_body]
fn json_string(s: &str) -> (r: String)
    ensures
        r@ == json_quoted(s@),
{
    match serde_json::to_string(s) {
        Ok(q) => q,
        Err(_) => String::new(),
    }
}

/// `{"role":<role>,"content":<content>}`.
pub open spec fn message_json(role: Seq<char>, content: Seq<char>) -> Seq<char> {
    "{\"role\":"@ + json_quoted(role) + ",\"content\":"@ + json_quoted(content) + "}"@
}

/// The entries of the outgoing list for a conversation: one per message
/// with text, in order; empty messages are left out.
pub open spec fn conversation_entries(ms: Seq<ChatMessage>) -> Seq<Seq<char>>
    decreases ms.len(),
{
    if ms.len() == 0 {
        Seq::empty()
    } else if ms.last().content@.len() == 0 {
        conversation_entries(ms.drop_last())
    } else {
        conversation_entries(ms.drop_last()).push(
            message_json(role_name(ms.last().role), ms.last().content@),
        )
    }
}

/// The outgoing list: the system prompt first, where there is one.
pub open spec fn with_system(system: Option<Seq<char>>, entries: Seq<Seq<char>>) -> Seq<Seq<char>> {
    match system {
        Some(p) => seq![message_json("system"@, p)] + entries,
        None => entries,
    }
}

/// Entries separated by commas.
pub open spec fn joined_entries(es: Seq<Seq<char>>) -> Seq<char>
    decreases es.len(),
{
    if es.len() == 0 {
        Seq::empty()
    } else if es.len() == 1 {
        es[0]
    } else {
        joined_entries(es.drop_last()) + ","@ + es.last()
    }
}

/// The request body: the model, the messages, streaming on, and the
/// sampling temperature 0.3.
pub open spec fn request_body(model: Seq<char>, entries: Seq<Seq<char>>) -> Seq<char> {
    "{\"model\":"@ + json_quoted(model) + ",\"messages\":["@ + joined_entries(entries)
        + "],\"stream\":true,\"temperature\":0.3}"@
}

/// The contents of an optional string slice.
pub open spec fn opt_str(o: Option<&str>) -> Option<Seq<char>> {
    match o {
        Some(s) => Some(s@),
        None => None,
    }
}

fn push_message(out: &mut String, first: bool, role: &str, content: &str)
    ensures
        final(out)@ == old(out)@ + (if first {
            Seq::empty()
        } else {
            ","@
        }) + message_json(role@, content@),
{
    if !first {
        out.append(",");
    }
    out.append("{\"role\":");
    let r = json_string(role);
    out.append(r.as_str());
    out.append(",\"content\":");
    let c = json_string(content);
    out.append(c.as_str());
    out.append("}");
}

/// The body that asks `model` to continue the conversation `messages`,
/// after the system prompt where one is given. Messages without text are
/// left out.
pub fn chat_request_body(model: &str, system_prompt: Option<&str>, messages: &[ChatMessage]) -> (r:
    String)
    ensures
        r@ == request_body(model@, with_system(opt_str(system_prompt), conversation_entries(messages@))),
{
    let mut out = String::from_str("{\"model\":");
    let m = json_string(model);
    out.append(m.as_str());
    out.append(",\"messages\":[");
    let ghost start = out@;
    let mut first = true;
    let ghost sys: Seq<Seq<char>> = Seq::empty();
    match system_prompt {
        Some(p) => {
            push_message(&mut out, true, "system", p);
            first = false;
            proof {
                sys = seq![message_json("system"@, p@)];
                assert(joined_entries(sys) == sys[0]);
                assert(out@ =~= start + joined_entries(sys));
            }
        },
        None => {
            assert(out@ =~= start + joined_entries(sys));
        },
    }
    let mut i: usize = 0;
    while i < messages.len()
        invariant
            i <= messages@.len(),
            sys == (match opt_str(system_prompt) {
                Some(p) => seq![message_json("system"@, p)],
                None => Seq::<Seq<char>>::empty(),
            }),
            first == ((sys + conversation_entries(messages@.subrange(0, i as int))).len() == 0),
            out@ == start + joined_entries(sys + conversation_entries(messages@.subrange(0, i as int))),
        decreases messages@.len() - i,
    {
        let ghost prev = sys + conversation_entries(messages@.subrange(0, i as int));
        let ghost sub = messages@.subrange(0, i + 1);
        assert(sub.drop_last() =~= messages@.subrange(0, i as int));
        assert(sub.last() == messages@[i as int]);
        let msg = &messages[i];
        if msg.content.as_str().unicode_len() > 0 {
            push_message(&mut out, first, msg.role.as_str(), msg.content.as_str());
            proof {
                let e = message_json(role_name(msg.role), msg.content@);
                assert(sys + conversation_entries(sub) =~= prev.push(e));
                if prev.len() == 0 {
                    assert(joined_entries(prev.push(e)) == e);
                    assert(joined_entries(prev) == Seq::<char>::empty());
                } else {
                    assert(prev.push(e).drop_last() =~= prev);
                }
            }
            first = false;
        } else {
            assert(sys + conversation_entries(sub) =~= prev);
        }
        i = i + 1;
    }
    assert(messages@.subrange(0, i as int) =~= messages@);
    out.append("],\"stream\":true,\"temperature\":0.3}");
    proof {
        let es = with_system(opt_str(system_prompt), conversation_entries(messages@));
        assert(es =~= sys + conversation_entries(messages@));
    }
    out
}

/// The body that asks `model` for an answer to the single user message
/// `content`, after the system prompt where one is given.
pub fn summary_request_body(model: &str, system_prompt: Option<&str>, content: &str) -> (r: String)
    ensures
        r@ == request_body(
            model@,
            with_system(opt_str(system_prompt), seq![message_json("user"@, content@)]),
        ),
{
    let mut out = String::from_str("{\"model\":");
    let m = json_string(model);
    out.append(m.as_str());
    out.append(",\"messages\":[");
    let ghost start = out@;
    let ghost user = message_json("user"@, content@);
    match system_prompt {
        Some(p) => {
            push_message(&mut out, true, "system", p);
            push_message(&mut out, false, "user", content);
            proof {
                let es = seq![message_json("system"@, p@)] + seq![user];
                assert(es.drop_last() =~= seq![message_json("system"@, p@)]);
                assert(joined_entries(es.drop_last()) == message_json("system"@, p@));
                assert(out@ =~= start + joined_entries(es));
            }
        },
        None => {
            push_message(&mut out, true, "user", content);
            assert(joined_entries(seq![user]) == user);
            assert(out@ =~= start + joined_entries(seq![user]));
        },
    }
    out.append("],\"stream\":true,\"temperature\":0.3}");
    proof {
        let es = with_system(opt_str(system_prompt), seq![user]);
        assert(out@ =~= request_body(model@, es));
    }
    out
}

/// The endpoint of chat completions under `base_url`.
pub fn completions_url(base_url: &str) -> (r: String)
    ensures
        r@ == base_url@ + "/chat/completions"@,
{
    String::from_str(base_url).concat("/chat/completions")
}

/// The value of the `Authorization` header for `api_key`.
pub fn bearer(api_key: &str) -> (r: String)
    ensures
        r@ == "Bearer "@ + api_key@,
{
    String::from_str("Bearer ").concat(api_key)
}

} // verus!
