//! The consuming side of an exchange: applies each message taken from the
//! channel to the conversation and the streaming state.
use vstd::prelude::*;
use vstd::string::StringExecFns;
use crate::items::{ChatMessage, Role};
use crate::session::{opt_text, stream_end, stream_end_text};
use crate::text::{has_prefix, starts_with};

verus! {

/// What one non-blocking receive gave.
pub enum Received {
    /// A message of the exchange.
    Message(String),
    /// Nothing is waiting now.
    Empty,
    /// The sending side is gone.
    Disconnected,
}

/// A message that reports a failed exchange.
pub open spec fn is_error_text(m: Seq<char>) -> bool {
    has_prefix(m, "Error:"@) || has_prefix(m, "Connection error:"@)
}

/// How a failure is shown in place of the response.
pub open spec fn error_display(m: Seq<char>) -> Seq<char> {
    "\u{274C} "@ + m
}

/// The response text after one increment: an empty one changes nothing.
pub open spec fn after_fragment(partial: Seq<char>, m: Seq<char>) -> Seq<char> {
    partial + m
}

/// The response text after a sequence of increments, applied in order.
pub open spec fn after_fragments(partial: Seq<char>, ms: Seq<Seq<char>>) -> Seq<char>
    decreases ms.len(),
{
    if ms.len() == 0 {
        partial
    } else {
        after_fragments(after_fragment(partial, ms[0]), ms.drop_first())
    }
}

/// The concatenation of a sequence of texts.
pub open spec fn concat(ms: Seq<Seq<char>>) -> Seq<char>
    decreases ms.len(),
{
    if ms.len() == 0 {
        Seq::empty()
    } else {
        ms[0] + concat(ms.drop_first())
    }
}

/// Increments applied in the order they arrive assemble to their
/// concatenation, in that order, after the text already held.
pub proof fn lemma_fragments_concatenate(partial: Seq<char>, ms: Seq<Seq<char>>)
    ensures
        after_fragments(partial, ms) == partial + concat(ms),
    decreases ms.len(),
{
    if ms.len() > 0 {
        lemma_fragments_concatenate(after_fragment(partial, ms[0]), ms.drop_first());
        assert(partial + ms[0] + concat(ms.drop_first()) =~= partial + (ms[0] + concat(
            ms.drop_first(),
        )));
    }
}

/// What the caller does after one receive.
pub struct ConsumerStep {
    /// Receive again in this tick.
    pub keep_draining: bool,
    /// The finished response, to be stored.
    pub to_persist: Option<ChatMessage>,
}

/// The conversation and the state of the exchange in flight.
pub struct ChatSession {
    pub chat_messages: Vec<ChatMessage>,
    /// A response is awaited; no new request may start.
    pub is_waiting_response: bool,
    /// The response assembled so far, or the shown failure.
    pub current_response: String,
    pub last_error: Option<String>,
    /// A receiving end of the exchange is held.
    pub receiving: bool,
    /// The input box asks for focus.
    pub should_focus_input: bool,
}

impl ChatSession {
    /// An empty conversation with nothing in flight.
    pub fn new() -> (r: ChatSession)
        ensures
            r.chat_messages@.len() == 0,
            !r.is_waiting_response,
            r.current_response@.len() == 0,
            r.last_error is None,
            !r.receiving,
            !r.should_focus_input,
    {
        ChatSession {
            chat_messages: Vec::new(),
            is_waiting_response: false,
            current_response: String::new(),
            last_error: None,
            receiving: false,
            should_focus_input: false,
        }
    }

    /// The end of the exchange commits the response to the trailing
    /// placeholder: there is a response, and the last message is the
    /// assistant's.
    pub open spec fn commits(&self) -> bool {
        &&& self.current_response@.len() > 0
        &&& self.chat_messages@.len() > 0
        &&& self.chat_messages@.last().role == Role::Assistant
    }

    /// Applies one receive. A message `__STREAM_END__` ends the exchange and
    /// commits the response; a message that starts with `Error:` or
    /// `Connection error:` ends it with that failure shown; an empty message
    /// is ignored; any other is appended to the response. A disconnected
    /// channel ends the exchange silently; an empty one ends this tick.
    pub fn on_received(&mut self, r: Received) -> (step: ConsumerStep)
        ensures
            !old(self).receiving ==> {
                &&& !step.keep_draining
                &&& step.to_persist is None
                &&& *final(self) == *old(self)
            },
            old(self).receiving ==> match r {
                Received::Empty => {
                    &&& !step.keep_draining
                    &&& step.to_persist is None
                    &&& *final(self) == *old(self)
                },
                Received::Disconnected => {
                    &&& !step.keep_draining
                    &&& step.to_persist is None
                    &&& !final(self).receiving
                    &&& !final(self).is_waiting_response
                    &&& final(self).current_response == old(self).current_response
                    &&& final(self).last_error == old(self).last_error
                    &&& final(self).chat_messages == old(self).chat_messages
                    &&& final(self).should_focus_input == old(self).should_focus_input
                },
                Received::Message(m) => if m@ == stream_end_text() {
                    &&& !step.keep_draining
                    &&& !final(self).receiving
                    &&& !final(self).is_waiting_response
                    &&& final(self).last_error is None
                    &&& final(self).should_focus_input
                    &&& final(self).current_response == old(self).current_response
                    &&& if old(self).commits() {
                        let n = old(self).chat_messages@.len() - 1;
                        &&& step.to_persist is Some
                        &&& step.to_persist->0.role == Role::Assistant
                        &&& step.to_persist->0.content@ == old(self).current_response@
                        &&& final(self).chat_messages@.len() == n + 1
                        &&& final(self).chat_messages@.subrange(0, n)
                            == old(self).chat_messages@.subrange(0, n)
                        &&& final(self).chat_messages@[n].role == Role::Assistant
                        &&& final(self).chat_messages@[n].content@ == old(self).current_response@
                    } else {
                        &&& step.to_persist is None
                        &&& final(self).chat_messages == old(self).chat_messages
                    }
                } else if m@.len() == 0 {
                    step.keep_draining && step.to_persist is None && *final(self) == *old(self)
                } else if is_error_text(m@) {
                    &&& !step.keep_draining
                    &&& step.to_persist is None
                    &&& !final(self).receiving
                    &&& !final(self).is_waiting_response
                    &&& opt_text(final(self).last_error) == Some(m@)
                    &&& final(self).current_response@ == error_display(m@)
                    &&& final(self).chat_messages == old(self).chat_messages
                    &&& final(self).should_focus_input == old(self).should_focus_input
                } else {
                    &&& step.keep_draining
                    &&& step.to_persist is None
                    &&& final(self).receiving
                    &&& final(self).is_waiting_response == old(self).is_waiting_response
                    &&& final(self).last_error is None
                    &&& final(self).current_response@ == after_fragment(
                        old(self).current_response@,
                        m@,
                    )
                    &&& final(self).chat_messages == old(self).chat_messages
                    &&& final(self).should_focus_input == old(self).should_focus_input
                },
            },
    {
        if !self.receiving {
            return ConsumerStep { keep_draining: false, to_persist: None };
        }
        match r {
            Received::Empty => ConsumerStep { keep_draining: false, to_persist: None },
            Received::Disconnected => {
                self.receiving = false;
                self.is_waiting_response = false;
                ConsumerStep { keep_draining: false, to_persist: None }
            },
            Received::Message(m) => {
                if m == stream_end() {
                    let mut to_persist: Option<ChatMessage> = None;
                    let n = self.chat_messages.len();
                    if self.current_response.as_str().unicode_len() > 0 && n > 0 {
                        if self.chat_messages[n - 1].role == Role::Assistant {
                            let committed = ChatMessage {
                                role: Role::Assistant,
                                content: self.current_response.clone(),
                            };
                            to_persist = Some(committed.duplicate());
                            self.chat_messages.set(n - 1, committed);
                            assert(self.chat_messages@.subrange(0, n - 1)
                                =~= old(self).chat_messages@.subrange(0, n - 1));
                        }
                    }
                    self.receiving = false;
                    self.is_waiting_response = false;
                    self.last_error = None;
                    self.should_focus_input = true;
                    ConsumerStep { keep_draining: false, to_persist }
                } else if m.as_str().unicode_len() == 0 {
                    ConsumerStep { keep_draining: true, to_persist: None }
                } else if starts_with(m.as_str(), "Error:") || starts_with(
                    m.as_str(),
                    "Connection error:",
                ) {
                    self.current_response = String::from_str("\u{274C} ").concat(m.as_str());
                    self.last_error = Some(m);
                    self.receiving = false;
                    self.is_waiting_response = false;
                    ConsumerStep { keep_draining: false, to_persist: None }
                } else {
                    self.current_response.append(m.as_str());
                    self.last_error = None;
                    ConsumerStep { keep_draining: true, to_persist: None }
                }
            },
        }
    }
}

} // verus!
