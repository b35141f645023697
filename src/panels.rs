//! The application state behind the three panels: the conversation, the
//! digest and the long-term memory, with the store they are saved in.
use vstd::prelude::*;
use vstd::string::StringExecFns;
use crate::clock::{clock_text, display_time, in_calendar};
use crate::consumer::ChatSession;
use crate::items::{role_name, ChatMessage, DigestItem, LongTermMemoryItem, Role};
use crate::store::{saved_into, Collection, Database};
use crate::request::{
    chat_request_body, conversation_entries, message_json, request_body, summary_request_body,
    with_system,
};
use crate::store::{members, shows_digest, shows_memory, StoreError};
use crate::text::{blank, decimal, decimal_text, is_blank, signed_decimal, signed_decimal_text};

verus! {

/// `<role>_<time>`: the identifier of an entry added in this session.
pub open spec fn entry_id(source: Role, secs: i64) -> Seq<char> {
    role_name(source) + "_"@ + signed_decimal(secs as int)
}

fn entry_id_text(source: Role, secs: i64) -> (r: String)
    ensures
        r@ == entry_id(source, secs),
{
    let mut r = String::from_str(source.as_str());
    r.append("_");
    let n = signed_decimal_text(secs);
    r.append(n.as_str());
    r
}

/// The prompt stored last for `panel` among `prompts`, pairs of panel and
/// prompt text.
pub open spec fn prompt_lookup(prompts: Seq<(String, String)>, panel: Seq<char>) -> Option<
    Seq<char>,
>
    decreases prompts.len(),
{
    if prompts.len() == 0 {
        None
    } else if prompts.last().0@ == panel {
        Some(prompts.last().1@)
    } else {
        prompt_lookup(prompts.drop_last(), panel)
    }
}

/// How an export names who wrote an entry.
pub open spec fn speaker(r: Role) -> Seq<char> {
    match r {
        Role::User => "You"@,
        Role::Assistant => "Assistant"@,
    }
}

/// How a summary request names who wrote an entry.
pub open spec fn summary_speaker(r: Role) -> Seq<char> {
    match r {
        Role::User => "User"@,
        Role::Assistant => "Assistant"@,
    }
}

/// One exported entry, numbered from 1.
pub open spec fn export_entry(n: nat, source: Role, timestamp: Seq<char>, content: Seq<char>) -> Seq<
    char,
> {
    "## Item "@ + decimal(n) + " - "@ + speaker(source) + " ("@ + timestamp + ")\n\n"@ + content
        + "\n\n---\n\n"@
}

/// The exported entries of the digest panel, in order.
pub open spec fn digest_export_entries(items: Seq<DigestItem>) -> Seq<char>
    decreases items.len(),
{
    if items.len() == 0 {
        Seq::empty()
    } else {
        digest_export_entries(items.drop_last()) + export_entry(
            items.len() as nat,
            items.last().source,
            items.last().timestamp@,
            items.last().content@,
        )
    }
}

/// The exported entries of the long-term memory panel, in order.
pub open spec fn memory_export_entries(items: Seq<LongTermMemoryItem>) -> Seq<char>
    decreases items.len(),
{
    if items.len() == 0 {
        Seq::empty()
    } else {
        memory_export_entries(items.drop_last()) + export_entry(
            items.len() as nat,
            items.last().source,
            items.last().timestamp@,
            items.last().content@,
        )
    }
}

/// The closing line of an export of `n` entries.
pub open spec fn export_footer(n: nat) -> Seq<char> {
    "*Exported "@ + decimal(n) + " items*"@
}

/// One entry of a summary request, numbered from 1 among the selected ones.
pub open spec fn summary_entry(n: nat, source: Role, timestamp: Seq<char>, content: Seq<char>) -> Seq<
    char,
> {
    decimal(n) + ". "@ + summary_speaker(source) + " ("@ + timestamp + "):\n"@ + content + "\n\n"@
}

/// The summary entries of the selected digest items, and how many there are.
pub open spec fn digest_summary_entries(items: Seq<DigestItem>) -> (Seq<char>, nat)
    decreases items.len(),
{
    if items.len() == 0 {
        (Seq::empty(), 0)
    } else {
        let (t, n) = digest_summary_entries(items.drop_last());
        let it = items.last();
        if it.selected {
            (t + summary_entry(n + 1, it.source, it.timestamp@, it.content@), n + 1)
        } else {
            (t, n)
        }
    }
}

/// The summary entries of the selected memory items, and how many there are.
pub open spec fn memory_summary_entries(items: Seq<LongTermMemoryItem>) -> (Seq<char>, nat)
    decreases items.len(),
{
    if items.len() == 0 {
        (Seq::empty(), 0)
    } else {
        let (t, n) = memory_summary_entries(items.drop_last());
        let it = items.last();
        if it.selected {
            (t + summary_entry(n + 1, it.source, it.timestamp@, it.content@), n + 1)
        } else {
            (t, n)
        }
    }
}

/// The request that closes every summary prompt.
pub open spec fn summary_closing() -> Seq<char> {
    "Please provide a clear, structured summary that captures the key points, main topics discussed, and important conclusions from the above content."@
}

/// The prompt that asks for a summary of the selected digest items.
pub open spec fn digest_summary_prompt(items: Seq<DigestItem>) -> Seq<char> {
    "Please provide a comprehensive summary of the following digest items:\n\n"@
        + digest_summary_entries(items).0 + summary_closing()
}

/// The prompt that asks for a summary of the selected memory items.
pub open spec fn memory_summary_prompt(items: Seq<LongTermMemoryItem>) -> Seq<char> {
    "Please provide a comprehensive summary of the following long term memory items:\n\n"@
        + memory_summary_entries(items).0 + summary_closing()
}

/// The information line after loading: the counts of the store.
pub open spec fn stats_text(total: nat, chat: nat, digest: nat, longterm: nat) -> Seq<char> {
    "Database loaded successfully!\nTotal unique content items: "@ + decimal(total)
        + "\nChat messages: "@ + decimal(chat) + "\nDigest items: "@ + decimal(digest)
        + "\nLong-term memory items: "@ + decimal(longterm)
}

fn speaker_str(r: Role) -> (s: &'static str)
    ensures
        s@ == speaker(r),
{
    match r {
        Role::User => "You",
        Role::Assistant => "Assistant",
    }
}

fn summary_speaker_str(r: Role) -> (s: &'static str)
    ensures
        s@ == summary_speaker(r),
{
    match r {
        Role::User => "User",
        Role::Assistant => "Assistant",
    }
}

fn append_export_entry(out: &mut String, n: usize, source: Role, timestamp: &str, content: &str)
    ensures
        final(out)@ == old(out)@ + export_entry(n as nat, source, timestamp@, content@),
{
    out.append("## Item ");
    let num = decimal_text(n as u64);
    out.append(num.as_str());
    out.append(" - ");
    out.append(speaker_str(source));
    out.append(" (");
    out.append(timestamp);
    out.append(")\n\n");
    out.append(content);
    out.append("\n\n---\n\n");
}

fn append_summary_entry(out: &mut String, n: usize, source: Role, timestamp: &str, content: &str)
    ensures
        final(out)@ == old(out)@ + summary_entry(n as nat, source, timestamp@, content@),
{
    let num = decimal_text(n as u64);
    out.append(num.as_str());
    out.append(". ");
    out.append(summary_speaker_str(source));
    out.append(" (");
    out.append(timestamp);
    out.append("):\n");
    out.append(content);
    out.append("\n\n");
}

/// Everything the panels show and the store behind them.
pub struct TemplateApp {
    pub session: ChatSession,
    pub digest_items: Vec<DigestItem>,
    pub long_term_memory_items: Vec<LongTermMemoryItem>,
    pub database: Database,
    pub info_text: String,
    pub api_base_url: String,
    pub api_key: String,
    pub model: String,
    /// Pairs of panel (`chat`, `digest`, `memory`) and system prompt.
    pub current_system_prompts: Vec<(String, String)>,
}

impl TemplateApp {
    /// The store keeps its rules.
    pub open spec fn wf(&self) -> bool {
        self.database.wf()
    }

    /// Empty panels over an empty store, talking to `model` at `api_base_url`.
    pub fn new(api_base_url: &str, api_key: &str, model: &str) -> (r: TemplateApp)
        ensures
            r.wf(),
            r.session.chat_messages@.len() == 0,
            !r.session.is_waiting_response,
            !r.session.receiving,
            r.digest_items@.len() == 0,
            r.long_term_memory_items@.len() == 0,
            r.database@.len() == 0,
            r.api_base_url@ == api_base_url@,
            r.api_key@ == api_key@,
            r.model@ == model@,
            r.current_system_prompts@.len() == 0,
    {
        TemplateApp {
            session: ChatSession::new(),
            digest_items: Vec::new(),
            long_term_memory_items: Vec::new(),
            database: Database::new(),
            info_text: String::new(),
            api_base_url: String::from_str(api_base_url),
            api_key: String::from_str(api_key),
            model: String::from_str(model),
            current_system_prompts: Vec::new(),
        }
    }

    /// The system prompt for `panel`, if the current role has one.
    pub fn system_prompt_for(&self, panel: &str) -> (r: Option<String>)
        ensures
            match r {
                Some(p) => prompt_lookup(self.current_system_prompts@, panel@) == Some(p@),
                None => prompt_lookup(self.current_system_prompts@, panel@) is None,
            },
    {
        let key = String::from_str(panel);
        let mut i: usize = self.current_system_prompts.len();
        assert(self.current_system_prompts@.subrange(0, i as int) =~= self.current_system_prompts@);
        while i > 0
            invariant
                i <= self.current_system_prompts@.len(),
                key@ == panel@,
                prompt_lookup(self.current_system_prompts@, panel@) == prompt_lookup(
                    self.current_system_prompts@.subrange(0, i as int),
                    panel@,
                ),
            decreases i,
        {
            let ghost sub = self.current_system_prompts@.subrange(0, i as int);
            assert(sub.drop_last() =~= self.current_system_prompts@.subrange(0, i - 1));
            assert(sub.last() == self.current_system_prompts@[i - 1]);
            if self.current_system_prompts[i - 1].0 == key {
                return Some(self.current_system_prompts[i - 1].1.clone());
            }
            i = i - 1;
        }
        None
    }

    /// Adds `content` by `source` to the digest panel, selected, and saves it
    /// into the digest collection of the store.
    pub fn add_to_digest(&mut self, content: String, source: Role, now_unix: i64) -> (r: Result<
        usize,
        crate::store::StoreError,
    >)
        requires
            old(self).wf(),
        ensures
            final(self).wf(),
            final(self).digest_items@.len() == old(self).digest_items@.len() + 1,
            final(self).digest_items@.drop_last() == old(self).digest_items@,
            final(self).digest_items@.last().id@ == entry_id(source, now_unix),
            final(self).digest_items@.last().content@ == content@,
            final(self).digest_items@.last().source == source,
            final(self).digest_items@.last().selected,
            in_calendar(now_unix) ==> final(self).digest_items@.last().timestamp@ == clock_text(
                now_unix,
            ),
            saved_into(
                old(self).database@,
                final(self).database@,
                r,
                content@,
                source,
                now_unix,
                final(self).digest_items@.last().timestamp@,
                seq![Collection::Digest],
            ),
    {
        let formatted = display_time(now_unix);
        let cols = vec![Collection::Digest];
        assert(cols@ =~= seq![Collection::Digest]);
        let r = self.database.save_content(
            content.as_str(),
            source,
            now_unix,
            formatted.as_str(),
            cols.as_slice(),
        );
        let item = DigestItem {
            id: entry_id_text(source, now_unix),
            content,
            source,
            timestamp: formatted,
            selected: true,
        };
        self.digest_items.push(item);
        assert(self.digest_items@.drop_last() =~= old(self).digest_items@);
        r
    }

    /// Adds `content` by `source` to the long-term memory panel, selected,
    /// and saves it into the long-term collection of the store.
    pub fn add_to_long_term_memory(&mut self, content: String, source: Role, now_unix: i64) -> (r:
        Result<usize, crate::store::StoreError>)
        requires
            old(self).wf(),
        ensures
            final(self).wf(),
            final(self).long_term_memory_items@.len() == old(self).long_term_memory_items@.len() + 1,
            final(self).long_term_memory_items@.drop_last() == old(self).long_term_memory_items@,
            final(self).long_term_memory_items@.last().id@ == entry_id(source, now_unix),
            final(self).long_term_memory_items@.last().content@ == content@,
            final(self).long_term_memory_items@.last().source == source,
            final(self).long_term_memory_items@.last().selected,
            in_calendar(now_unix) ==> final(self).long_term_memory_items@.last().timestamp@
                == clock_text(now_unix),
            saved_into(
                old(self).database@,
                final(self).database@,
                r,
                content@,
                source,
                now_unix,
                final(self).long_term_memory_items@.last().timestamp@,
                seq![Collection::LongTerm],
            ),
    {
        let formatted = display_time(now_unix);
        let cols = vec![Collection::LongTerm];
        assert(cols@ =~= seq![Collection::LongTerm]);
        let r = self.database.save_content(
            content.as_str(),
            source,
            now_unix,
            formatted.as_str(),
            cols.as_slice(),
        );
        let item = LongTermMemoryItem {
            id: entry_id_text(source, now_unix),
            content,
            source,
            timestamp: formatted,
            selected: true,
        };
        self.long_term_memory_items.push(item);
        assert(self.long_term_memory_items@.drop_last() =~= old(self).long_term_memory_items@);
        r
    }

    /// Saves a conversation message into the chat collection of the store.
    pub fn save_chat_message_to_db(&mut self, message: &ChatMessage, now_unix: i64) -> (r: Result<
        usize,
        crate::store::StoreError,
    >)
        requires
            old(self).wf(),
        ensures
            final(self).wf(),
            exists|d: Seq<char>|
                (d == clock_text(now_unix) || d.len() == 0) && (in_calendar(now_unix) ==> d
                    == clock_text(now_unix)) && saved_into(
                    old(self).database@,
                    final(self).database@,
                    r,
                    message.content@,
                    message.role,
                    now_unix,
                    d,
                    seq![Collection::Chat],
                ),
            final(self).session == old(self).session,
            final(self).digest_items == old(self).digest_items,
            final(self).long_term_memory_items == old(self).long_term_memory_items,
            final(self).info_text == old(self).info_text,
            final(self).model == old(self).model,
            final(self).api_base_url == old(self).api_base_url,
            final(self).api_key == old(self).api_key,
            final(self).current_system_prompts == old(self).current_system_prompts,
    {
        let formatted = display_time(now_unix);
        let cols = vec![Collection::Chat];
        assert(cols@ =~= seq![Collection::Chat]);
        let r = self.database.save_content(
            message.content.as_str(),
            message.role,
            now_unix,
            formatted.as_str(),
            cols.as_slice(),
        );
        assert(saved_into(
            old(self).database@,
            self.database@,
            r,
            message.content@,
            message.role,
            now_unix,
            formatted@,
            seq![Collection::Chat],
        ));
        r
    }

    /// The digest panel as Markdown: a heading, each entry numbered with its
    /// author and time, and the count.
    pub fn export_digest_items(&self) -> (r: String)
        ensures
            r@ == "# Digested Content Export\n\n"@ + digest_export_entries(self.digest_items@)
                + export_footer(self.digest_items@.len()),
    {
        let mut out = String::from_str("# Digested Content Export\n\n");
        let ghost start = out@;
        let mut i: usize = 0;
        while i < self.digest_items.len()
            invariant
                i <= self.digest_items@.len(),
                out@ == start + digest_export_entries(self.digest_items@.subrange(0, i as int)),
            decreases self.digest_items@.len() - i,
        {
            let ghost sub = self.digest_items@.subrange(0, i + 1);
            assert(sub.drop_last() =~= self.digest_items@.subrange(0, i as int));
            let it = &self.digest_items[i];
            append_export_entry(&mut out, i + 1, it.source, it.timestamp.as_str(), it.content.as_str());
            assert(out@ =~= start + digest_export_entries(sub));
            i = i + 1;
        }
        assert(self.digest_items@.subrange(0, i as int) =~= self.digest_items@);
        out.append("*Exported ");
        let n = decimal_text(self.digest_items.len() as u64);
        out.append(n.as_str());
        out.append(" items*");
        out
    }

    /// The long-term memory panel as Markdown: a heading, each entry numbered
    /// with its author and time, and the count.
    pub fn export_memory_items(&self) -> (r: String)
        ensures
            r@ == "# Long Term Memory Export\n\n"@ + memory_export_entries(
                self.long_term_memory_items@,
            ) + export_footer(self.long_term_memory_items@.len()),
    {
        let mut out = String::from_str("# Long Term Memory Export\n\n");
        let ghost start = out@;
        let mut i: usize = 0;
        while i < self.long_term_memory_items.len()
            invariant
                i <= self.long_term_memory_items@.len(),
                out@ == start + memory_export_entries(
                    self.long_term_memory_items@.subrange(0, i as int),
                ),
            decreases self.long_term_memory_items@.len() - i,
        {
            let ghost sub = self.long_term_memory_items@.subrange(0, i + 1);
            assert(sub.drop_last() =~= self.long_term_memory_items@.subrange(0, i as int));
            let it = &self.long_term_memory_items[i];
            append_export_entry(&mut out, i + 1, it.source, it.timestamp.as_str(), it.content.as_str());
            assert(out@ =~= start + memory_export_entries(sub));
            i = i + 1;
        }
        assert(self.long_term_memory_items@.subrange(0, i as int) =~= self.long_term_memory_items@);
        out.append("*Exported ");
        let n = decimal_text(self.long_term_memory_items.len() as u64);
        out.append(n.as_str());
        out.append(" items*");
        out
    }

    /// The prompt that asks for a summary of the selected digest items, and
    /// their number.
    fn digest_summary(&self) -> (r: (String, usize))
        ensures
            r.0@ == digest_summary_prompt(self.digest_items@),
            r.1 == digest_summary_entries(self.digest_items@).1,
    {
        let mut out = String::from_str(
            "Please provide a comprehensive summary of the following digest items:\n\n",
        );
        let ghost start = out@;
        let mut n: usize = 0;
        let mut i: usize = 0;
        while i < self.digest_items.len()
            invariant
                i <= self.digest_items@.len(),
                n <= i,
                (out@, n as nat) == ({
                    let e = digest_summary_entries(self.digest_items@.subrange(0, i as int));
                    (start + e.0, e.1)
                }),
            decreases self.digest_items@.len() - i,
        {
            let ghost sub = self.digest_items@.subrange(0, i + 1);
            assert(sub.drop_last() =~= self.digest_items@.subrange(0, i as int));
            let it = &self.digest_items[i];
            if it.selected {
                n = n + 1;
                append_summary_entry(&mut out, n, it.source, it.timestamp.as_str(), it.content.as_str());
            }
            assert(out@ =~= start + digest_summary_entries(sub).0);
            i = i + 1;
        }
        assert(self.digest_items@.subrange(0, i as int) =~= self.digest_items@);
        out.append("Please provide a clear, structured summary that captures the key points, main topics discussed, and important conclusions from the above content.");
        (out, n)
    }

    /// The prompt that asks for a summary of the selected memory items, and
    /// their number.
    fn memory_summary(&self) -> (r: (String, usize))
        ensures
            r.0@ == memory_summary_prompt(self.long_term_memory_items@),
            r.1 == memory_summary_entries(self.long_term_memory_items@).1,
    {
        let mut out = String::from_str(
            "Please provide a comprehensive summary of the following long term memory items:\n\n",
        );
        let ghost start = out@;
        let mut n: usize = 0;
        let mut i: usize = 0;
        while i < self.long_term_memory_items.len()
            invariant
                i <= self.long_term_memory_items@.len(),
                n <= i,
                (out@, n as nat) == ({
                    let e = memory_summary_entries(
                        self.long_term_memory_items@.subrange(0, i as int),
                    );
                    (start + e.0, e.1)
                }),
            decreases self.long_term_memory_items@.len() - i,
        {
            let ghost sub = self.long_term_memory_items@.subrange(0, i + 1);
            assert(sub.drop_last() =~= self.long_term_memory_items@.subrange(0, i as int));
            let it = &self.long_term_memory_items[i];
            if it.selected {
                n = n + 1;
                append_summary_entry(&mut out, n, it.source, it.timestamp.as_str(), it.content.as_str());
            }
            assert(out@ =~= start + memory_summary_entries(sub).0);
            i = i + 1;
        }
        assert(self.long_term_memory_items@.subrange(0, i as int) =~= self.long_term_memory_items@);
        out.append("Please provide a clear, structured summary that captures the key points, main topics discussed, and important conclusions from the above content.");
        (out, n)
    }

    /// Puts the summary request and an empty assistant placeholder into the
    /// conversation, marks a response as awaited, and returns the body to
    /// send for the prompt alone, after the system prompt of `panel`.
    fn begin_summary(&mut self, prompt: String, panel: &str) -> (r: String)
        ensures
            r@ == request_body(
                old(self).model@,
                with_system(
                    prompt_lookup(old(self).current_system_prompts@, panel@),
                    seq![message_json("user"@, prompt@)],
                ),
            ),
            began_exchange(old(self), final(self), prompt@),
            final(self).database == old(self).database,
    {
        let system = self.system_prompt_for(panel);
        let body = match &system {
            Some(p) => summary_request_body(self.model.as_str(), Some(p.as_str()), prompt.as_str()),
            None => summary_request_body(self.model.as_str(), None, prompt.as_str()),
        };
        self.session.chat_messages.push(ChatMessage { role: Role::User, content: prompt });
        self.session.chat_messages.push(ChatMessage { role: Role::Assistant, content: String::new() });
        self.session.is_waiting_response = true;
        self.session.current_response = String::new();
        self.session.receiving = true;
        assert(self.session.chat_messages@.subrange(0, old(self).session.chat_messages@.len() as int)
            =~= old(self).session.chat_messages@);
        body
    }

    /// Starts a summary of the selected digest items, unless none is selected
    /// or a response is awaited: the request goes into the conversation with
    /// an empty placeholder after it, and the body to send is returned.
    pub fn start_digest_summary_generation(&mut self) -> (r: Option<String>)
        ensures
            digest_summary_entries(old(self).digest_items@).1 == 0
                || old(self).session.is_waiting_response ==> r is None && *final(self) == *old(self),
            digest_summary_entries(old(self).digest_items@).1 > 0
                && !old(self).session.is_waiting_response ==> {
                &&& r is Some
                &&& r->0@ == request_body(
                    old(self).model@,
                    with_system(
                        prompt_lookup(old(self).current_system_prompts@, "digest"@),
                        seq![message_json("user"@, digest_summary_prompt(old(self).digest_items@))],
                    ),
                )
                &&& began_exchange(old(self), final(self), digest_summary_prompt(old(self).digest_items@))
                &&& final(self).database == old(self).database
            },
    {
        let (prompt, n) = self.digest_summary();
        if n == 0 || self.session.is_waiting_response {
            return None;
        }
        Some(self.begin_summary(prompt, "digest"))
    }

    /// Starts a summary of the selected memory items, unless none is selected
    /// or a response is awaited: the request goes into the conversation with
    /// an empty placeholder after it, and the body to send is returned.
    pub fn start_memory_summary_generation(&mut self) -> (r: Option<String>)
        ensures
            memory_summary_entries(old(self).long_term_memory_items@).1 == 0
                || old(self).session.is_waiting_response ==> r is None && *final(self) == *old(self),
            memory_summary_entries(old(self).long_term_memory_items@).1 > 0
                && !old(self).session.is_waiting_response ==> {
                &&& r is Some
                &&& r->0@ == request_body(
                    old(self).model@,
                    with_system(
                        prompt_lookup(old(self).current_system_prompts@, "memory"@),
                        seq![message_json("user"@, memory_summary_prompt(old(self).long_term_memory_items@))],
                    ),
                )
                &&& began_exchange(
                    old(self),
                    final(self),
                    memory_summary_prompt(old(self).long_term_memory_items@),
                )
                &&& final(self).database == old(self).database
            },
    {
        let (prompt, n) = self.memory_summary();
        if n == 0 || self.session.is_waiting_response {
            return None;
        }
        Some(self.begin_summary(prompt, "memory"))
    }

    /// Fills the panels from the store: the chat collection into the
    /// conversation, the digest and long-term collections into their panels,
    /// none selected, and the counts into the information text.
    pub fn load_data_from_database(&mut self)
        requires
            old(self).wf(),
        ensures
            final(self).wf(),
            final(self).database == old(self).database,
            final(self).session.chat_messages@.len() == members(
                old(self).database@,
                Collection::Chat,
            ).len(),
            forall|k: int|
                0 <= k < final(self).session.chat_messages@.len()
                    ==> (#[trigger] final(self).session.chat_messages@[k]).role == members(
                    old(self).database@,
                    Collection::Chat,
                )[k].origin && final(self).session.chat_messages@[k].content@ == members(
                    old(self).database@,
                    Collection::Chat,
                )[k].content,
            final(self).digest_items@.len() == members(old(self).database@, Collection::Digest).len(),
            forall|k: int|
                0 <= k < final(self).digest_items@.len() ==> shows_digest(
                    #[trigger] final(self).digest_items@[k],
                    members(old(self).database@, Collection::Digest)[k],
                ),
            final(self).long_term_memory_items@.len() == members(
                old(self).database@,
                Collection::LongTerm,
            ).len(),
            forall|k: int|
                0 <= k < final(self).long_term_memory_items@.len() ==> shows_memory(
                    #[trigger] final(self).long_term_memory_items@[k],
                    members(old(self).database@, Collection::LongTerm)[k],
                ),
            final(self).info_text@ == stats_text(
                old(self).database@.len(),
                members(old(self).database@, Collection::Chat).len(),
                members(old(self).database@, Collection::Digest).len(),
                members(old(self).database@, Collection::LongTerm).len(),
            ),
    {
        self.session.chat_messages = self.database.load_chat_messages();
        self.digest_items = self.database.load_digest_items();
        self.long_term_memory_items = self.database.load_longterm_memory_items();
        let (total, chat, digest, longterm) = self.database.get_database_stats();
        let mut info = String::from_str("Database loaded successfully!\nTotal unique content items: ");
        let t = decimal_text(total as u64);
        info.append(t.as_str());
        info.append("\nChat messages: ");
        let c = decimal_text(chat as u64);
        info.append(c.as_str());
        info.append("\nDigest items: ");
        let d = decimal_text(digest as u64);
        info.append(d.as_str());
        info.append("\nLong-term memory items: ");
        let l = decimal_text(longterm as u64);
        info.append(l.as_str());
        self.info_text = info;
    }

    /// Sends what the user typed, unless it is blank or a response is
    /// awaited: the message is saved into the chat collection, goes into the
    /// conversation with an empty assistant placeholder after it, and the
    /// body to send for the whole conversation, after the chat system
    /// prompt, is returned with the outcome of the save.
    pub fn submit_input(&mut self, input: &str, now_unix: i64) -> (r: Option<
        (String, Result<usize, StoreError>),
    >)
        requires
            old(self).wf(),
        ensures
            final(self).wf(),
            is_blank(input@) || old(self).session.is_waiting_response ==> {
                &&& r is None
                &&& *final(self) == *old(self)
            },
            !is_blank(input@) && !old(self).session.is_waiting_response ==> {
                &&& r is Some
                &&& (r->0).0@ == request_body(
                    old(self).model@,
                    with_system(
                        prompt_lookup(old(self).current_system_prompts@, "chat"@),
                        conversation_entries(final(self).session.chat_messages@),
                    ),
                )
                &&& began_exchange(old(self), final(self), input@)
                &&& exists|d: Seq<char>|
                    (in_calendar(now_unix) ==> d == clock_text(now_unix)) && saved_into(
                        old(self).database@,
                        final(self).database@,
                        (r->0).1,
                        input@,
                        Role::User,
                        now_unix,
                        d,
                        seq![Collection::Chat],
                    )
            },
    {
        if blank(input) || self.session.is_waiting_response {
            return None;
        }
        let ghost before = self.session.chat_messages@;
        let user_message = ChatMessage::new(Role::User, input);
        let ghost db0 = self.database@;
        let saved = self.save_chat_message_to_db(&user_message, now_unix);
        assert(exists|d: Seq<char>|
                (d == clock_text(now_unix) || d.len() == 0) && (in_calendar(now_unix) ==> d
                    == clock_text(now_unix)) && saved_into(
                    db0,
                    self.database@,
                    saved,
                    user_message.content@,
                    user_message.role,
                    now_unix,
                    d,
                    seq![Collection::Chat],
                ));
        let ghost d = choose|d: Seq<char>|
            (d == clock_text(now_unix) || d.len() == 0) && (in_calendar(now_unix) ==> d
                == clock_text(now_unix)) && saved_into(
                db0,
                self.database@,
                saved,
                user_message.content@,
                user_message.role,
                now_unix,
                d,
                seq![Collection::Chat],
            );
        self.session.chat_messages.push(user_message);
        self.session.chat_messages.push(ChatMessage { role: Role::Assistant, content: String::new() });
        self.session.is_waiting_response = true;
        self.session.current_response = String::new();
        self.session.receiving = true;
        assert(self.session.chat_messages@.subrange(0, before.len() as int) =~= before);
        let system = self.system_prompt_for("chat");
        let body = match &system {
            Some(p) => chat_request_body(
                self.model.as_str(),
                Some(p.as_str()),
                self.session.chat_messages.as_slice(),
            ),
            None => chat_request_body(self.model.as_str(), None, self.session.chat_messages.as_slice()),
        };
        assert(saved_into(
            old(self).database@,
            self.database@,
            saved,
            input@,
            Role::User,
            now_unix,
            d,
            seq![Collection::Chat],
        ));
        let r = Some((body, saved));
        assert((in_calendar(now_unix) ==> d == clock_text(now_unix)) && saved_into(
            old(self).database@,
            self.database@,
            (r->0).1,
            input@,
            Role::User,
            now_unix,
            d,
            seq![Collection::Chat],
        ));
        r
    }
}

/// `after` is `before` with the user message `text` and an empty assistant
/// placeholder added to the conversation, a response awaited on a fresh
/// channel and an empty response text; nothing else changed.
pub open spec fn began_exchange(before: &TemplateApp, after: &TemplateApp, text: Seq<char>) -> bool {
    let n = before.session.chat_messages@.len() as int;
    &&& after.session.chat_messages@.len() == n + 2
    &&& after.session.chat_messages@.subrange(0, n) == before.session.chat_messages@
    &&& after.session.chat_messages@[n].role == Role::User
    &&& after.session.chat_messages@[n].content@ == text
    &&& after.session.chat_messages@[n + 1].role == Role::Assistant
    &&& after.session.chat_messages@[n + 1].content@.len() == 0
    &&& after.session.is_waiting_response
    &&& after.session.receiving
    &&& after.session.current_response@.len() == 0
    &&& after.session.last_error == before.session.last_error
    &&& after.session.should_focus_input == before.session.should_focus_input
    &&& after.digest_items == before.digest_items
    &&& after.long_term_memory_items == before.long_term_memory_items
    &&& after.info_text == before.info_text
    &&& after.model == before.model
    &&& after.api_base_url == before.api_base_url
    &&& after.api_key == before.api_key
    &&& after.current_system_prompts == before.current_system_prompts
}

} // verus!
