//! The content store: every saved text exactly once, with its memberships in
//! the chat, digest and long-term collections.
use vstd::prelude::*;
use vstd::string::StringExecFns;
use crate::items::{ChatMessage, DigestItem, LongTermMemoryItem, Role};

verus! {

/// A named collection that items can belong to.
#[derive(Clone, Copy, Debug, PartialEq, Eq, Structural)]
pub enum Collection {
    Chat,
    Digest,
    LongTerm,
}

/// The tag of a collection in storage.
pub open spec fn collection_name(c: Collection) -> Seq<char> {
    match c {
        Collection::Chat => "chat"@,
        Collection::Digest => "digest"@,
        Collection::LongTerm => "longterm"@,
    }
}

impl Collection {
    /// `chat`, `digest` or `longterm`.
    pub fn as_str(&self) -> (r: &'static str)
        ensures
            r@ == collection_name(*self),
    {
        match self {
            Collection::Chat => "chat",
            Collection::Digest => "digest",
            Collection::LongTerm => "longterm",
        }
    }
}

/// What the store knows of one item.
pub ghost struct ItemView {
    pub id: Seq<char>,
    pub content: Seq<char>,
    pub origin: Role,
    pub created_at: i64,
    pub display: Seq<char>,
    pub chat: bool,
    pub digest: bool,
    pub longterm: bool,
}

/// One stored text with its identity and its memberships.
pub struct ContentItem {
    pub external_id: String,
    pub content: String,
    pub origin: Role,
    pub created_at_unix: i64,
    pub display_time: String,
    pub in_chat: bool,
    pub in_digest: bool,
    pub in_longterm: bool,
}

impl View for ContentItem {
    type V = ItemView;

    open spec fn view(&self) -> ItemView {
        ItemView {
            id: self.external_id@,
            content: self.content@,
            origin: self.origin,
            created_at: self.created_at_unix,
            display: self.display_time@,
            chat: self.in_chat,
            digest: self.in_digest,
            longterm: self.in_longterm,
        }
    }
}

/// The item belongs to the collection.
pub open spec fn is_member(it: ItemView, c: Collection) -> bool {
    match c {
        Collection::Chat => it.chat,
        Collection::Digest => it.digest,
        Collection::LongTerm => it.longterm,
    }
}

/// The item with its membership in `c` set to `on`, the rest kept.
pub open spec fn with_membership(it: ItemView, c: Collection, on: bool) -> ItemView {
    match c {
        Collection::Chat => ItemView { chat: on, ..it },
        Collection::Digest => ItemView { digest: on, ..it },
        Collection::LongTerm => ItemView { longterm: on, ..it },
    }
}

/// The item added to every collection of `cols`, its other memberships kept.
pub open spec fn joined(it: ItemView, cols: Seq<Collection>) -> ItemView {
    ItemView {
        chat: it.chat || cols.contains(Collection::Chat),
        digest: it.digest || cols.contains(Collection::Digest),
        longterm: it.longterm || cols.contains(Collection::LongTerm),
        ..it
    }
}

/// The items of `c`, in stored order.
pub open spec fn members(items: Seq<ItemView>, c: Collection) -> Seq<ItemView>
    decreases items.len(),
{
    if items.len() == 0 {
        Seq::empty()
    } else if is_member(items.last(), c) {
        members(items.drop_last(), c).push(items.last())
    } else {
        members(items.drop_last(), c)
    }
}

/// The items ordered by creation time, each text stored once per origin and
/// each identifier used once.
pub open spec fn well_formed(items: Seq<ItemView>) -> bool {
    &&& forall|i: int, j: int|
        0 <= i < j < items.len() ==> (#[trigger] items[i]).created_at <= (#[trigger] items[j]).created_at
    &&& forall|i: int, j: int|
        0 <= i < j < items.len() ==> !((#[trigger] items[i]).content == (#[trigger] items[j]).content
            && items[i].origin == items[j].origin)
    &&& forall|i: int, j: int|
        0 <= i < j < items.len() ==> (#[trigger] items[i]).id != (#[trigger] items[j]).id
}

/// The index of the item that holds `content` from `origin`, if any.
pub open spec fn find_item(items: Seq<ItemView>, content: Seq<char>, origin: Role) -> Option<int>
    decreases items.len(),
{
    if items.len() == 0 {
        None
    } else if items.last().content == content && items.last().origin == origin {
        Some(items.len() - 1)
    } else {
        find_item(items.drop_last(), content, origin)
    }
}

/// Some item uses the identifier.
pub open spec fn id_in_use(items: Seq<ItemView>, id: Seq<char>) -> bool {
    exists|i: int| 0 <= i < items.len() && (#[trigger] items[i]).id == id
}

/// Where an item created at `t` goes: after every item created at `t` or
/// earlier.
pub open spec fn insert_pos(items: Seq<ItemView>, t: i64) -> int
    decreases items.len(),
{
    if items.len() == 0 || items.last().created_at <= t {
        items.len() as int
    } else {
        insert_pos(items.drop_last(), t)
    }
}

/// Why the store refused a write.
#[derive(Clone, Copy, Debug, PartialEq, Eq, Structural)]
pub enum StoreError {
    /// The identifier meant for a new item is already in use.
    DuplicateId,
    /// The text is already stored for that origin.
    DuplicateContent,
}

/// The store after saving `content` from `origin` into `cols`: an item that
/// holds the same text from the same origin is reused and joins `cols`;
/// otherwise a new item with identifier `id` is placed by its creation time,
/// which fails where `id` is in use.
pub open spec fn save_result(
    items: Seq<ItemView>,
    content: Seq<char>,
    origin: Role,
    created_at: i64,
    display: Seq<char>,
    cols: Seq<Collection>,
    id: Seq<char>,
) -> Result<Seq<ItemView>, StoreError> {
    match find_item(items, content, origin) {
        Some(i) => Ok(items.update(i, joined(items[i], cols))),
        None => if id_in_use(items, id) {
            Err(StoreError::DuplicateId)
        } else {
            let fresh = ItemView {
                id,
                content,
                origin,
                created_at,
                display,
                chat: false,
                digest: false,
                longterm: false,
            };
            Ok(items.insert(insert_pos(items, created_at), joined(fresh, cols)))
        },
    }
}

/// The store with every item taken out of `c`; items and their other
/// memberships stay.
pub open spec fn cleared(items: Seq<ItemView>, c: Collection) -> Seq<ItemView> {
    items.map_values(|it: ItemView| with_membership(it, c, false))
}

/// Saving keeps the store well formed, and afterwards the store holds the
/// saved text from its origin.
pub proof fn lemma_save_keeps_order(
    items: Seq<ItemView>,
    content: Seq<char>,
    origin: Role,
    created_at: i64,
    display: Seq<char>,
    cols: Seq<Collection>,
    id: Seq<char>,
)
    requires
        well_formed(items),
        save_result(items, content, origin, created_at, display, cols, id) is Ok,
    ensures
        well_formed(save_result(items, content, origin, created_at, display, cols, id)->Ok_0),
        find_item(save_result(items, content, origin, created_at, display, cols, id)->Ok_0, content, origin)
            is Some,
{
    let s = save_result(items, content, origin, created_at, display, cols, id)->Ok_0;
    match find_item(items, content, origin) {
        Some(i) => {
            lemma_find_some(items, content, origin);
            assert(forall|k: int| 0 <= k < items.len() ==> #[trigger] s[k] == items[k] || k == i);
            lemma_find_unique(s, content, origin, i);
        },
        None => {
            let p = insert_pos(items, created_at);
            lemma_find_none(items, content, origin);
            lemma_insert_pos(items, created_at);
            lemma_insert_keeps_order(items, p, s[p]);
            assert(s == items.insert(p, s[p]));
            lemma_find_unique(s, content, origin, p);
        },
    }
}

/// Saving a text from an origin that the store already holds adds no item,
/// never fails, and keeps the store well formed: saved twice, at different
/// times and into any collections, a text is held by exactly one item.
pub proof fn lemma_idempotent_save(
    items: Seq<ItemView>,
    content: Seq<char>,
    origin: Role,
    t1: i64,
    d1: Seq<char>,
    cols1: Seq<Collection>,
    id1: Seq<char>,
    t2: i64,
    d2: Seq<char>,
    cols2: Seq<Collection>,
    id2: Seq<char>,
)
    requires
        well_formed(items),
        save_result(items, content, origin, t1, d1, cols1, id1) is Ok,
    ensures
        ({
            let s1 = save_result(items, content, origin, t1, d1, cols1, id1)->Ok_0;
            let r2 = save_result(s1, content, origin, t2, d2, cols2, id2);
            &&& r2 is Ok
            &&& r2->Ok_0.len() == s1.len()
            &&& s1.len() <= items.len() + 1
            &&& well_formed(r2->Ok_0)
            &&& exists|k: int|
                0 <= k < r2->Ok_0.len() && (#[trigger] r2->Ok_0[k]).content == content
                    && r2->Ok_0[k].origin == origin
            &&& forall|a: int, b: int|
                0 <= a < r2->Ok_0.len() && 0 <= b < r2->Ok_0.len() && (#[trigger] r2->Ok_0[a]).content
                    == content && r2->Ok_0[a].origin == origin && (#[trigger] r2->Ok_0[b]).content
                    == content && r2->Ok_0[b].origin == origin ==> a == b
        }),
{
    let s1 = save_result(items, content, origin, t1, d1, cols1, id1)->Ok_0;
    lemma_save_keeps_order(items, content, origin, t1, d1, cols1, id1);
    lemma_save_keeps_order(s1, content, origin, t2, d2, cols2, id2);
    lemma_find_some(s1, content, origin);
    let s2 = save_result(s1, content, origin, t2, d2, cols2, id2)->Ok_0;
    let i = find_item(s1, content, origin)->0;
    assert(s2 == s1.update(i, joined(s1[i], cols2)));
    assert(s2.len() == s1.len());
    assert(s2[i].content == content && s2[i].origin == origin);
    match find_item(items, content, origin) {
        Some(j) => {
            lemma_find_some(items, content, origin);
            assert(s1.len() == items.len());
        },
        None => {
            lemma_insert_pos(items, t1);
            assert(s1.len() == items.len() + 1);
        },
    }
    assert forall|a: int, b: int|
        0 <= a < s2.len() && 0 <= b < s2.len() && (#[trigger] s2[a]).content == content
            && s2[a].origin == origin && (#[trigger] s2[b]).content == content && s2[b].origin
            == origin implies a == b by {
        if a < b {
            assert(!(s2[a].content == s2[b].content && s2[a].origin == s2[b].origin));
        } else if b < a {
            assert(!(s2[b].content == s2[a].content && s2[b].origin == s2[a].origin));
        }
    }
}

/// `after` and the result `r` are what saving `content` from `origin` into
/// `cols` with a fresh identifier gives on `before`.
pub open spec fn saved_into(
    before: Seq<ItemView>,
    after: Seq<ItemView>,
    r: Result<usize, StoreError>,
    content: Seq<char>,
    origin: Role,
    created_at: i64,
    display: Seq<char>,
    cols: Seq<Collection>,
) -> bool {
    &&& well_formed(after)
    &&& (find_item(before, content, origin) is Some ==> r is Ok)
    &&& match r {
        Ok(i) => {
            &&& exists|id: Seq<char>|
                save_result(before, content, origin, created_at, display, cols, id) == Ok::<
                    Seq<ItemView>,
                    StoreError,
                >(after)
            &&& find_item(after, content, origin) == Some(i as int)
        },
        Err(e) => e == StoreError::DuplicateId && after == before,
    }
}

/// Two items that show the same entry: identifier, text, origin and times.
pub open spec fn same_entry(a: ItemView, b: ItemView) -> bool {
    &&& a.id == b.id
    &&& a.content == b.content
    &&& a.origin == b.origin
    &&& a.created_at == b.created_at
    &&& a.display == b.display
}

/// Clearing one collection leaves every other collection holding the same
/// entries in the same order, and empties the cleared one.
pub proof fn lemma_clear_isolation(items: Seq<ItemView>, c: Collection, other: Collection)
    requires
        c != other,
    ensures
        members(cleared(items, c), other) == cleared(members(items, other), c),
        members(cleared(items, c), other).len() == members(items, other).len(),
        forall|k: int|
            0 <= k < members(items, other).len() ==> same_entry(
                #[trigger] members(cleared(items, c), other)[k],
                members(items, other)[k],
            ),
        members(cleared(items, c), c).len() == 0,
    decreases items.len(),
{
    if items.len() > 0 {
        let p = items.drop_last();
        lemma_clear_isolation(p, c, other);
        let q = cleared(items, c);
        assert(q.drop_last() =~= cleared(p, c));
        assert(q.len() == items.len());
        assert(q.last() == with_membership(items.last(), c, false));
        assert(is_member(q.last(), other) == is_member(items.last(), other));
        assert(!is_member(q.last(), c));
        if is_member(items.last(), other) {
            assert(cleared(members(p, other).push(items.last()), c) =~= cleared(members(p, other), c).push(
                q.last(),
            ));
        }
    } else {
        assert(cleared(items, c) =~= Seq::<ItemView>::empty());
        assert(cleared(members(items, other), c) =~= Seq::<ItemView>::empty());
    }
}

/// A loaded digest entry shows the item: its identifier, text, origin and
/// time, not selected.
pub open spec fn shows_digest(d: DigestItem, it: ItemView) -> bool {
    &&& d.id@ == it.id
    &&& d.content@ == it.content
    &&& d.source == it.origin
    &&& d.timestamp@ == it.display
    &&& !d.selected
}

/// A loaded memory entry shows the item: its identifier, text, origin and
/// time, not selected.
pub open spec fn shows_memory(d: LongTermMemoryItem, it: ItemView) -> bool {
    &&& d.id@ == it.id
    &&& d.content@ == it.content
    &&& d.source == it.origin
    &&& d.timestamp@ == it.display
    &&& !d.selected
}

/// Relies on uuid::Uuid::new_v4 and its hyphenated text form: a random
/// identifier, 36 characters long.
#[verifier::external_body]
fn fresh_external_id() -> (r: String)
    ensures
        r@.len() == 36,
{
    uuid::Uuid::new_v4().to_string()
}

/// The texts saved so far, in order of creation.
pub struct Database {
    items: Vec<ContentItem>,
}

impl View for Database {
    type V = Seq<ItemView>;

    closed spec fn view(&self) -> Seq<ItemView> {
        self.items@.map_values(|it: ContentItem| it@)
    }
}

proof fn lemma_find_none(items: Seq<ItemView>, content: Seq<char>, origin: Role)
    requires
        find_item(items, content, origin) is None,
    ensures
        forall|k: int|
            0 <= k < items.len() ==> !((#[trigger] items[k]).content == content && items[k].origin
                == origin),
    decreases items.len(),
{
    if items.len() > 0 {
        lemma_find_none(items.drop_last(), content, origin);
        assert forall|k: int| 0 <= k < items.len() implies !((#[trigger] items[k]).content
            == content && items[k].origin == origin) by {
            if k < items.len() - 1 {
                assert(items[k] == items.drop_last()[k]);
            }
        }
    }
}

proof fn lemma_find_some(items: Seq<ItemView>, content: Seq<char>, origin: Role)
    requires
        find_item(items, content, origin) is Some,
    ensures
        0 <= find_item(items, content, origin)->0 < items.len(),
        items[find_item(items, content, origin)->0].content == content,
        items[find_item(items, content, origin)->0].origin == origin,
    decreases items.len(),
{
    if items.len() > 0 && !(items.last().content == content && items.last().origin == origin) {
        lemma_find_some(items.drop_last(), content, origin);
    }
}

proof fn lemma_insert_pos(items: Seq<ItemView>, t: i64)
    requires
        well_formed(items),
    ensures
        0 <= insert_pos(items, t) <= items.len(),
        forall|k: int| 0 <= k < insert_pos(items, t) ==> (#[trigger] items[k]).created_at <= t,
        forall|k: int|
            insert_pos(items, t) <= k < items.len() ==> (#[trigger] items[k]).created_at > t,
    decreases items.len(),
{
    if items.len() > 0 {
        let p = items.drop_last();
        if items.last().created_at <= t {
            assert forall|k: int| 0 <= k < items.len() implies (#[trigger] items[k]).created_at
                <= t by {
                if k < items.len() - 1 {
                    assert(items[k].created_at <= items[items.len() - 1].created_at);
                }
            }
        } else {
            assert(well_formed(p)) by {
                assert forall|i: int, j: int| 0 <= i < j < p.len() implies (#[trigger] p[i]).created_at
                    <= (#[trigger] p[j]).created_at by {
                    assert(p[i] == items[i] && p[j] == items[j]);
                }
                assert forall|i: int, j: int| 0 <= i < j < p.len() implies !((#[trigger] p[i]).content
                    == (#[trigger] p[j]).content && p[i].origin == p[j].origin) by {
                    assert(p[i] == items[i] && p[j] == items[j]);
                }
                assert forall|i: int, j: int| 0 <= i < j < p.len() implies (#[trigger] p[i]).id
                    != (#[trigger] p[j]).id by {
                    assert(p[i] == items[i] && p[j] == items[j]);
                }
            }
            lemma_insert_pos(p, t);
            assert forall|k: int| 0 <= k < insert_pos(items, t) implies (#[trigger] items[k]).created_at
                <= t by {
                assert(items[k] == p[k]);
            }
            assert forall|k: int| insert_pos(items, t) <= k < items.len() implies (#[trigger] items[k]).created_at
                > t by {
                if k < items.len() - 1 {
                    assert(items[k] == p[k]);
                }
            }
        }
    }
}

proof fn lemma_insert_keeps_order(items: Seq<ItemView>, p: int, it: ItemView)
    requires
        well_formed(items),
        0 <= p <= items.len(),
        forall|k: int| 0 <= k < p ==> (#[trigger] items[k]).created_at <= it.created_at,
        forall|k: int| p <= k < items.len() ==> (#[trigger] items[k]).created_at > it.created_at,
        forall|k: int|
            0 <= k < items.len() ==> !((#[trigger] items[k]).content == it.content
                && items[k].origin == it.origin),
        forall|k: int| 0 <= k < items.len() ==> (#[trigger] items[k]).id != it.id,
    ensures
        well_formed(items.insert(p, it)),
{
    let s = items.insert(p, it);
    assert forall|k: int| 0 <= k < s.len() implies #[trigger] s[k] == (if k < p {
        items[k]
    } else if k == p {
        it
    } else {
        items[k - 1]
    }) by {}
}

/// In a well-formed store, the item that `find_item` gives is the only one
/// that holds its text from its origin.
proof fn lemma_find_unique(items: Seq<ItemView>, content: Seq<char>, origin: Role, i: int)
    requires
        well_formed(items),
        0 <= i < items.len(),
        items[i].content == content,
        items[i].origin == origin,
    ensures
        find_item(items, content, origin) == Some(i),
    decreases items.len(),
{
    if i < items.len() - 1 {
        let p = items.drop_last();
        assert(!(items[i].content == items[items.len() - 1].content && items[i].origin
            == items[items.len() - 1].origin));
        assert(p[i] == items[i]);
        assert(well_formed(p)) by {
            assert forall|a: int, b: int| 0 <= a < b < p.len() implies (#[trigger] p[a]).created_at
                <= (#[trigger] p[b]).created_at by {
                assert(p[a] == items[a] && p[b] == items[b]);
            }
            assert forall|a: int, b: int| 0 <= a < b < p.len() implies !((#[trigger] p[a]).content
                == (#[trigger] p[b]).content && p[a].origin == p[b].origin) by {
                assert(p[a] == items[a] && p[b] == items[b]);
            }
            assert forall|a: int, b: int| 0 <= a < b < p.len() implies (#[trigger] p[a]).id
                != (#[trigger] p[b]).id by {
                assert(p[a] == items[a] && p[b] == items[b]);
            }
        }
        lemma_find_unique(p, content, origin, i);
    }
}

/// Whether `cols` names `c`.
fn names(cols: &[Collection], c: Collection) -> (r: bool)
    ensures
        r == cols@.contains(c),
{
    let mut i: usize = 0;
    while i < cols.len()
        invariant
            i <= cols@.len(),
            forall|k: int| 0 <= k < i ==> cols@[k] != c,
        decreases cols@.len() - i,
    {
        if cols[i] == c {
            assert(cols@[i as int] == c);
            return true;
        }
        i = i + 1;
    }
    false
}

impl ContentItem {
    /// A copy of the item.
    pub fn duplicate(&self) -> (r: ContentItem)
        ensures
            r@ == self@,
    {
        ContentItem {
            external_id: self.external_id.clone(),
            content: self.content.clone(),
            origin: self.origin,
            created_at_unix: self.created_at_unix,
            display_time: self.display_time.clone(),
            in_chat: self.in_chat,
            in_digest: self.in_digest,
            in_longterm: self.in_longterm,
        }
    }

    /// Whether the item belongs to `c`.
    pub fn belongs_to(&self, c: Collection) -> (r: bool)
        ensures
            r == is_member(self@, c),
    {
        match c {
            Collection::Chat => self.in_chat,
            Collection::Digest => self.in_digest,
            Collection::LongTerm => self.in_longterm,
        }
    }

    fn joined(&self, cols: &[Collection]) -> (r: ContentItem)
        ensures
            r@ == joined(self@, cols@),
    {
        let mut r = self.duplicate();
        r.in_chat = self.in_chat || names(cols, Collection::Chat);
        r.in_digest = self.in_digest || names(cols, Collection::Digest);
        r.in_longterm = self.in_longterm || names(cols, Collection::LongTerm);
        r
    }

    fn without(&self, c: Collection) -> (r: ContentItem)
        ensures
            r@ == with_membership(self@, c, false),
    {
        let mut r = self.duplicate();
        match c {
            Collection::Chat => r.in_chat = false,
            Collection::Digest => r.in_digest = false,
            Collection::LongTerm => r.in_longterm = false,
        }
        r
    }
}

impl Database {
    /// The store keeps its order and uniqueness rules.
    pub open spec fn wf(&self) -> bool {
        well_formed(self@)
    }

    /// An empty store.
    pub fn new() -> (r: Database)
        ensures
            r@ == Seq::<ItemView>::empty(),
            r.wf(),
    {
        let r = Database { items: Vec::new() };
        assert(r@ =~= Seq::<ItemView>::empty());
        r
    }

    /// The number of stored items.
    pub fn len(&self) -> (r: usize)
        ensures
            r == self@.len(),
    {
        self.items.len()
    }

    /// The item at position `i`, in order of creation.
    pub fn item(&self, i: usize) -> (r: &ContentItem)
        requires
            i < self@.len(),
        ensures
            r@ == self@[i as int],
    {
        &self.items[i]
    }

    fn find_index(&self, content: &String, origin: Role) -> (r: Option<usize>)
        ensures
            match r {
                Some(i) => find_item(self@, content@, origin) == Some(i as int),
                None => find_item(self@, content@, origin) is None,
            },
    {
        let mut i: usize = self.items.len();
        assert(self@.subrange(0, i as int) =~= self@);
        while i > 0
            invariant
                i <= self@.len(),
                find_item(self@, content@, origin) == find_item(
                    self@.subrange(0, i as int),
                    content@,
                    origin,
                ),
            decreases i,
        {
            let ghost sub = self@.subrange(0, i as int);
            assert(sub.drop_last() =~= self@.subrange(0, i - 1));
            assert(sub.last() == self.items@[i - 1]@);
            if self.items[i - 1].content == *content && self.items[i - 1].origin == origin {
                return Some(i - 1);
            }
            i = i - 1;
        }
        None
    }

    fn id_used(&self, id: &String) -> (r: bool)
        ensures
            r == id_in_use(self@, id@),
    {
        let mut i: usize = 0;
        while i < self.items.len()
            invariant
                i <= self@.len(),
                forall|k: int| 0 <= k < i ==> (#[trigger] self@[k]).id != id@,
            decreases self@.len() - i,
        {
            if self.items[i].external_id == *id {
                assert(self@[i as int].id == id@);
                return true;
            }
            i = i + 1;
        }
        false
    }

    fn position_for(&self, t: i64) -> (r: usize)
        ensures
            r == insert_pos(self@, t),
            r <= self@.len(),
    {
        let mut i: usize = self.items.len();
        assert(self@.subrange(0, i as int) =~= self@);
        while i > 0 && self.items[i - 1].created_at_unix > t
            invariant
                i <= self@.len(),
                insert_pos(self@, t) == insert_pos(self@.subrange(0, i as int), t),
            decreases i,
        {
            let ghost sub = self@.subrange(0, i as int);
            assert(sub.drop_last() =~= self@.subrange(0, i - 1));
            i = i - 1;
        }
        proof {
            if i > 0 {
                let sub = self@.subrange(0, i as int);
                assert(sub.last() == self@[i - 1]);
            }
        }
        i
    }

    /// Saves `content` from `origin` into each collection of `collections`.
    /// The item that already holds the same text from the same origin is
    /// reused, whatever its time; otherwise a new item with identifier
    /// `fresh_id` is added, which fails where that identifier is in use.
    /// Memberships that exist already stay as they are. Returns the item's
    /// position.
    pub fn save_content_with_id(
        &mut self,
        content: &str,
        origin: Role,
        created_at_unix: i64,
        display_time: &str,
        collections: &[Collection],
        fresh_id: String,
    ) -> (r: Result<usize, StoreError>)
        requires
            old(self).wf(),
        ensures
            final(self).wf(),
            match r {
                Ok(i) => {
                    &&& save_result(
                        old(self)@,
                        content@,
                        origin,
                        created_at_unix,
                        display_time@,
                        collections@,
                        fresh_id@,
                    ) == Ok::<Seq<ItemView>, StoreError>(final(self)@)
                    &&& find_item(final(self)@, content@, origin) == Some(i as int)
                },
                Err(e) => {
                    &&& save_result(
                        old(self)@,
                        content@,
                        origin,
                        created_at_unix,
                        display_time@,
                        collections@,
                        fresh_id@,
                    ) == Err::<Seq<ItemView>, StoreError>(e)
                    &&& final(self)@ == old(self)@
                },
            },
    {
        let ghost items = self@;
        let text = String::from_str(content);
        match self.find_index(&text, origin) {
            Some(i) => {
                proof {
                    lemma_find_some(items, content@, origin);
                }
                let updated = self.items[i].joined(collections);
                self.items.set(i, updated);
                assert(self@ =~= items.update(i as int, joined(items[i as int], collections@)));
                assert(forall|k: int| 0 <= k < items.len() ==> #[trigger] self@[k] == items[k] || k == i);
                proof {
                    lemma_find_unique(self@, content@, origin, i as int);
                }
                Ok(i)
            },
            None => {
                if self.id_used(&fresh_id) {
                    return Err(StoreError::DuplicateId);
                }
                let p = self.position_for(created_at_unix);
                let fresh = ContentItem {
                    external_id: fresh_id,
                    content: text,
                    origin,
                    created_at_unix,
                    display_time: String::from_str(display_time),
                    in_chat: false,
                    in_digest: false,
                    in_longterm: false,
                };
                let item = fresh.joined(collections);
                let ghost iv = item@;
                self.items.insert(p, item);
                assert(self@ =~= items.insert(p as int, iv));
                proof {
                    lemma_find_none(items, content@, origin);
                    lemma_insert_pos(items, created_at_unix);
                    lemma_insert_keeps_order(items, p as int, iv);
                    lemma_find_unique(self@, content@, origin, p as int);
                }
                Ok(p)
            },
        }
    }

    /// Saves `content` from `origin` into each collection of `collections`,
    /// as `save_content_with_id` does, with a fresh random identifier for a
    /// new item. Reusing an item never fails.
    pub fn save_content(
        &mut self,
        content: &str,
        origin: Role,
        created_at_unix: i64,
        display_time: &str,
        collections: &[Collection],
    ) -> (r: Result<usize, StoreError>)
        requires
            old(self).wf(),
        ensures
            final(self).wf(),
            find_item(old(self)@, content@, origin) is Some ==> r is Ok,
            match r {
                Ok(i) => {
                    &&& exists|id: Seq<char>|
                        save_result(
                            old(self)@,
                            content@,
                            origin,
                            created_at_unix,
                            display_time@,
                            collections@,
                            id,
                        ) == Ok::<Seq<ItemView>, StoreError>(final(self)@)
                    &&& find_item(final(self)@, content@, origin) == Some(i as int)
                },
                Err(e) => e == StoreError::DuplicateId && final(self)@ == old(self)@,
            },
    {
        let id = fresh_external_id();
        self.save_content_with_id(content, origin, created_at_unix, display_time, collections, id)
    }

    /// Puts back an item read from storage. Fails, leaving the store as it
    /// was, where its text from its origin or its identifier is already held.
    pub fn restore_item(&mut self, item: ContentItem) -> (r: Result<(), StoreError>)
        requires
            old(self).wf(),
        ensures
            final(self).wf(),
            find_item(old(self)@, item.content@, item.origin) is Some ==> r == Err::<(), StoreError>(
                StoreError::DuplicateContent,
            ),
            find_item(old(self)@, item.content@, item.origin) is None && id_in_use(
                old(self)@,
                item.external_id@,
            ) ==> r == Err::<(), StoreError>(StoreError::DuplicateId),
            r is Err ==> final(self)@ == old(self)@,
            r is Ok ==> final(self)@ == old(self)@.insert(
                insert_pos(old(self)@, item.created_at_unix),
                item@,
            ),
    {
        let ghost items = self@;
        if self.find_index(&item.content, item.origin).is_some() {
            return Err(StoreError::DuplicateContent);
        }
        if self.id_used(&item.external_id) {
            return Err(StoreError::DuplicateId);
        }
        let p = self.position_for(item.created_at_unix);
        let ghost iv = item@;
        self.items.insert(p, item);
        assert(self@ =~= items.insert(p as int, iv));
        proof {
            lemma_find_none(items, iv.content, iv.origin);
            lemma_insert_pos(items, iv.created_at);
            lemma_insert_keeps_order(items, p as int, iv);
        }
        Ok(())
    }

    /// The positions of the items of `c`, in stored order.
    fn member_positions(&self, c: Collection) -> (r: Vec<usize>)
        ensures
            r@.len() == members(self@, c).len(),
            forall|k: int|
                #![trigger r@[k]]
                0 <= k < r@.len() ==> r@[k] < self@.len() && self@[r@[k] as int] == members(
                    self@,
                    c,
                )[k],
    {
        let mut r: Vec<usize> = Vec::new();
        let mut i: usize = 0;
        while i < self.items.len()
            invariant
                i <= self@.len(),
                r@.len() == members(self@.subrange(0, i as int), c).len(),
                forall|k: int|
                    #![trigger r@[k]]
                    0 <= k < r@.len() ==> r@[k] < i && self@[r@[k] as int] == members(
                        self@.subrange(0, i as int),
                        c,
                    )[k],
            decreases self@.len() - i,
        {
            let ghost sub = self@.subrange(0, i + 1);
            let ghost prev = members(self@.subrange(0, i as int), c);
            assert(sub.drop_last() =~= self@.subrange(0, i as int));
            assert(sub.last() == self@[i as int]);
            assert(self@[i as int] == self.items@[i as int]@);
            if self.items[i].belongs_to(c) {
                r.push(i);
                assert(members(sub, c) == prev.push(self@[i as int]));
            } else {
                assert(members(sub, c) == prev);
            }
            i = i + 1;
        }
        assert(self@.subrange(0, i as int) =~= self@);
        r
    }

    /// The messages of the chat collection, oldest first.
    pub fn load_chat_messages(&self) -> (r: Vec<ChatMessage>)
        ensures
            r@.len() == members(self@, Collection::Chat).len(),
            forall|k: int|
                0 <= k < r@.len() ==> (#[trigger] r@[k]).role == members(
                    self@,
                    Collection::Chat,
                )[k].origin && r@[k].content@ == members(self@, Collection::Chat)[k].content,
    {
        let pos = self.member_positions(Collection::Chat);
        let mut r: Vec<ChatMessage> = Vec::new();
        let mut j: usize = 0;
        while j < pos.len()
            invariant
                j <= pos@.len(),
                r@.len() == j,
                pos@.len() == members(self@, Collection::Chat).len(),
                forall|k: int|
                    #![trigger pos@[k]]
                    0 <= k < pos@.len() ==> pos@[k] < self@.len() && self@[pos@[k] as int]
                        == members(self@, Collection::Chat)[k],
                forall|k: int|
                    0 <= k < j ==> (#[trigger] r@[k]).role == members(
                        self@,
                        Collection::Chat,
                    )[k].origin && r@[k].content@ == members(self@, Collection::Chat)[k].content,
            decreases pos@.len() - j,
        {
            let it = &self.items[pos[j]];
            assert(self@[pos@[j as int] as int] == it@);
            r.push(ChatMessage { role: it.origin, content: it.content.clone() });
            j = j + 1;
        }
        r
    }

    /// The digest collection, oldest first, none of it selected.
    pub fn load_digest_items(&self) -> (r: Vec<DigestItem>)
        ensures
            r@.len() == members(self@, Collection::Digest).len(),
            forall|k: int|
                0 <= k < r@.len() ==> shows_digest(
                    #[trigger] r@[k],
                    members(self@, Collection::Digest)[k],
                ),
    {
        let pos = self.member_positions(Collection::Digest);
        let mut r: Vec<DigestItem> = Vec::new();
        let mut j: usize = 0;
        while j < pos.len()
            invariant
                j <= pos@.len(),
                r@.len() == j,
                pos@.len() == members(self@, Collection::Digest).len(),
                forall|k: int|
                    #![trigger pos@[k]]
                    0 <= k < pos@.len() ==> pos@[k] < self@.len() && self@[pos@[k] as int]
                        == members(self@, Collection::Digest)[k],
                forall|k: int|
                    0 <= k < j ==> shows_digest(
                        #[trigger] r@[k],
                        members(self@, Collection::Digest)[k],
                    ),
            decreases pos@.len() - j,
        {
            let it = &self.items[pos[j]];
            assert(self@[pos@[j as int] as int] == it@);
            r.push(
                DigestItem {
                    id: it.external_id.clone(),
                    content: it.content.clone(),
                    source: it.origin,
                    timestamp: it.display_time.clone(),
                    selected: false,
                },
            );
            j = j + 1;
        }
        r
    }

    /// The long-term collection, oldest first, none of it selected.
    pub fn load_longterm_memory_items(&self) -> (r: Vec<LongTermMemoryItem>)
        ensures
            r@.len() == members(self@, Collection::LongTerm).len(),
            forall|k: int|
                0 <= k < r@.len() ==> shows_memory(
                    #[trigger] r@[k],
                    members(self@, Collection::LongTerm)[k],
                ),
    {
        let pos = self.member_positions(Collection::LongTerm);
        let mut r: Vec<LongTermMemoryItem> = Vec::new();
        let mut j: usize = 0;
        while j < pos.len()
            invariant
                j <= pos@.len(),
                r@.len() == j,
                pos@.len() == members(self@, Collection::LongTerm).len(),
                forall|k: int|
                    #![trigger pos@[k]]
                    0 <= k < pos@.len() ==> pos@[k] < self@.len() && self@[pos@[k] as int]
                        == members(self@, Collection::LongTerm)[k],
                forall|k: int|
                    0 <= k < j ==> shows_memory(
                        #[trigger] r@[k],
                        members(self@, Collection::LongTerm)[k],
                    ),
            decreases pos@.len() - j,
        {
            let it = &self.items[pos[j]];
            assert(self@[pos@[j as int] as int] == it@);
            r.push(
                LongTermMemoryItem {
                    id: it.external_id.clone(),
                    content: it.content.clone(),
                    source: it.origin,
                    timestamp: it.display_time.clone(),
                    selected: false,
                },
            );
            j = j + 1;
        }
        r
    }

    /// Takes every item out of `c`. Items and their memberships elsewhere
    /// stay.
    pub fn clear(&mut self, c: Collection)
        requires
            old(self).wf(),
        ensures
            final(self).wf(),
            final(self)@ == cleared(old(self)@, c),
    {
        let ghost items = self@;
        let mut i: usize = 0;
        while i < self.items.len()
            invariant
                i <= self@.len(),
                self@.len() == items.len(),
                forall|k: int| 0 <= k < i ==> #[trigger] self@[k] == with_membership(items[k], c, false),
                forall|k: int| i <= k < self@.len() ==> #[trigger] self@[k] == items[k],
            decreases self@.len() - i,
        {
            let ghost before = self@;
            assert(self@[i as int] == self.items@[i as int]@);
            let updated = self.items[i].without(c);
            self.items.set(i, updated);
            assert(self@ =~= before.update(i as int, with_membership(items[i as int], c, false)));
            i = i + 1;
        }
        assert(self@ =~= cleared(items, c));
    }

    /// The number of stored items, then the number of items in the chat, the
    /// digest and the long-term collection.
    pub fn get_database_stats(&self) -> (r: (usize, usize, usize, usize))
        ensures
            r.0 == self@.len(),
            r.1 == members(self@, Collection::Chat).len(),
            r.2 == members(self@, Collection::Digest).len(),
            r.3 == members(self@, Collection::LongTerm).len(),
    {
        let chat = self.member_positions(Collection::Chat).len();
        let digest = self.member_positions(Collection::Digest).len();
        let longterm = self.member_positions(Collection::LongTerm).len();
        (self.items.len(), chat, digest, longterm)
    }
}

} // verus!
