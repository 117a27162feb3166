//! The store: which objects were downloaded, and where they are kept.
//!
//! Reading and writing the files of the store is left to the caller; this
//! module decides what the files hold and where objects go.
pub mod container;
pub mod info;

use crate::element::author::UserId;
use crate::element::comment::CommentId;
use crate::item::answer::AnswerId;
use crate::item::article::ArticleId;
use crate::item::collection::CollectionId;
use crate::item::column::ColumnId;
use crate::item::pin::PinId;
use crate::item::question::QuestionId;
use crate::meta::Version;
use crate::util::key_map::{
    byte_values, char_codes, entries_map, keys_ascending, keys_distinct, lemma_entries_map, lex_lt, KeyMap, KeySet,
    MapKey,
};
use crate::util::text::{decimal, hex_lower, push_char, u64_to_string};
use info::{ContainerOption, HasContainer, ItemInfo, spec_default_item_info};
use vstd::prelude::*;

verus! {

/// The format version of stores written by this program.
pub open spec fn spec_store_version() -> Version {
    Version { major: 1, minor: 1 }
}

/// The format version of stores that `Store::migrate` upgrades.
pub open spec fn spec_migrate_from() -> Version {
    Version { major: 1, minor: 0 }
}

/// The format version of stores written by this program.
pub fn store_version() -> (r: Version)
    ensures
        r == spec_store_version(),
{
    Version { major: 1, minor: 1 }
}

/// A file system operation that failed.
#[derive(Debug, Clone)]
pub enum FsErrorOp {
    CreateDir,
    CreateFile,
    OpenFile,
    CanonicalizePath,
    SymLinkTo(String),
    RenameTo(String),
    OpenDir,
    GetDirEntry,
}

/// The description of a failed file system operation.
pub open spec fn spec_fs_error_op_text(op: FsErrorOp) -> Seq<char> {
    match op {
        FsErrorOp::CreateDir => "create directory"@,
        FsErrorOp::CreateFile => "create file"@,
        FsErrorOp::OpenFile => "open file"@,
        FsErrorOp::CanonicalizePath => "canonicalize path"@,
        FsErrorOp::SymLinkTo(v) => "create symbolic link to "@ + v@ + " from"@,
        FsErrorOp::RenameTo(t) => "rename to "@ + t@ + " from"@,
        FsErrorOp::OpenDir => "open directory"@,
        FsErrorOp::GetDirEntry => "get directory entry"@,
    }
}

impl FsErrorOp {
    /// The description of the operation (its display text).
    pub fn describe(&self) -> (r: String)
        ensures
            r@ == spec_fs_error_op_text(*self),
    {
        match self {
            FsErrorOp::CreateDir => String::from_str("create directory"),
            FsErrorOp::CreateFile => String::from_str("create file"),
            FsErrorOp::OpenFile => String::from_str("open file"),
            FsErrorOp::CanonicalizePath => String::from_str("canonicalize path"),
            FsErrorOp::SymLinkTo(v) => {
                let mut s = String::from_str("create symbolic link to ");
                s.append(v.as_str());
                s.append(" from");
                s
            },
            FsErrorOp::RenameTo(t) => {
                let mut s = String::from_str("rename to ");
                s.append(t.as_str());
                s.append(" from");
                s
            },
            FsErrorOp::OpenDir => String::from_str("open directory"),
            FsErrorOp::GetDirEntry => String::from_str("get directory entry"),
        }
    }
}

/// Why a store cannot be opened.
#[derive(Debug, Clone, Copy)]
pub enum StoreError {
    /// The store was written in an incompatible format version.
    Version(Version),
}

/// Why a store cannot be migrated.
#[derive(Debug, Clone)]
pub enum MigrateError {
    /// The store is not of the version that migration upgrades.
    Version(Version),
    /// The data of a stored object could not be read; its kind and
    /// identifier.
    LoadObject { kind: String, id: String },
    /// The pictures of a stored object could not be migrated; its kind and
    /// identifier.
    Image { kind: String, id: String },
}

/// How migrating one object went.
#[derive(Debug, Clone, Copy, PartialEq, Eq)]
pub enum ObjectMigration {
    /// Its data was read and its pictures migrated.
    Done,
    /// Its data could not be read.
    LoadFailed,
    /// Its pictures could not be migrated.
    ImageFailed,
}

/// The records of all known objects, one map per kind.
pub struct ObjectInfo {

    pub answer: KeyMap<AnswerId, info::Answer>,
    pub article: KeyMap<ArticleId, info::Article>,
    pub collection: KeyMap<CollectionId, info::Collection>,
    pub column: KeyMap<ColumnId, info::Column>,
    pub comment: KeyMap<CommentId, info::Comment>,
    pub pin: KeyMap<PinId, info::Pin>,
    pub question: KeyMap<QuestionId, info::Question>,
    pub user: KeyMap<UserId, info::User>,
}

impl ObjectInfo {
    /// No records at all.
    pub fn new() -> (r: Self)
        ensures

            r.answer@ == Map::<u64, info::Answer>::empty(),
            r.article@ == Map::<u64, info::Article>::empty(),
            r.collection@ == Map::<u64, info::Collection>::empty(),
            r.column@ == Map::<Seq<char>, info::Column>::empty(),
            r.comment@ == Map::<u64, info::Comment>::empty(),
            r.pin@ == Map::<u64, info::Pin>::empty(),
            r.question@ == Map::<u64, info::Question>::empty(),
            r.user@ == Map::<Seq<u8>, info::User>::empty(),
            r.answer.spec_entries().len() == 0,
            r.article.spec_entries().len() == 0,
            r.collection.spec_entries().len() == 0,
            r.column.spec_entries().len() == 0,
            r.comment.spec_entries().len() == 0,
            r.pin.spec_entries().len() == 0,
            r.question.spec_entries().len() == 0,
            r.user.spec_entries().len() == 0,
    {
        ObjectInfo {

            answer: KeyMap::new(),
            article: KeyMap::new(),
            collection: KeyMap::new(),
            column: KeyMap::new(),
            comment: KeyMap::new(),
            pin: KeyMap::new(),
            question: KeyMap::new(),
            user: KeyMap::new(),
        }
    }
}

/// A reference to a stored object.
#[derive(Debug, Clone)]
pub enum ObjectRef {

    Answer(AnswerId),
    Article(ArticleId),
    Collection(CollectionId),
    Column(ColumnId),
    Comment(CommentId),
    Pin(PinId),
    Question(QuestionId),
    User(UserId),
}

/// The identity of an object: its kind and the view of its identifier.
pub enum ObjectKey {

    Answer(u64),
    Article(u64),
    Collection(u64),
    Column(Seq<char>),
    Comment(u64),
    Pin(u64),
    Question(u64),
    User(Seq<u8>),
}

impl View for ObjectRef {
    type V = ObjectKey;

    open spec fn view(&self) -> ObjectKey {
        match self {

            ObjectRef::Answer(i) => ObjectKey::Answer(i@),
            ObjectRef::Article(i) => ObjectKey::Article(i@),
            ObjectRef::Collection(i) => ObjectKey::Collection(i@),
            ObjectRef::Column(i) => ObjectKey::Column(i@),
            ObjectRef::Comment(i) => ObjectKey::Comment(i@),
            ObjectRef::Pin(i) => ObjectKey::Pin(i@),
            ObjectRef::Question(i) => ObjectKey::Question(i@),
            ObjectRef::User(i) => ObjectKey::User(i@),
        }
    }
}

/// The record of `k` in a map, or the default when there is none.
pub open spec fn record_of<KV, R: HasContainer>(m: Map<KV, R>, k: KV) -> ItemInfo {
    if m.contains_key(k) {
        m[k].spec_container()
    } else {
        spec_default_item_info()
    }
}

/// What `objects` records of the object `k`.
pub open spec fn objects_info(objects: ObjectInfo, k: ObjectKey) -> ItemInfo {
    match k {

        ObjectKey::Answer(i) => record_of(objects.answer@, i),
        ObjectKey::Article(i) => record_of(objects.article@, i),
        ObjectKey::Collection(i) => record_of(objects.collection@, i),
        ObjectKey::Column(i) => record_of(objects.column@, i),
        ObjectKey::Comment(i) => record_of(objects.comment@, i),
        ObjectKey::Pin(i) => record_of(objects.pin@, i),
        ObjectKey::Question(i) => record_of(objects.question@, i),
        ObjectKey::User(i) => record_of(objects.user@, i),
    }
}

/// Whether the record of `k` in a map says its container `o` is stored.
pub open spec fn flag_of<KV, R: HasContainer>(m: Map<KV, R>, k: KV, o: ContainerOption) -> bool {
    m.contains_key(k) && m[k].spec_flag(o)
}

/// Whether `objects` records the container `o` of the object `k` as stored.
pub open spec fn objects_flag(objects: ObjectInfo, k: ObjectKey, o: ContainerOption) -> bool {
    match k {
        ObjectKey::Answer(i) => flag_of(objects.answer@, i, o),
        ObjectKey::Article(i) => flag_of(objects.article@, i, o),
        ObjectKey::Collection(i) => flag_of(objects.collection@, i, o),
        ObjectKey::Column(i) => flag_of(objects.column@, i, o),
        ObjectKey::Comment(i) => flag_of(objects.comment@, i, o),
        ObjectKey::Pin(i) => flag_of(objects.pin@, i, o),
        ObjectKey::Question(i) => flag_of(objects.question@, i, o),
        ObjectKey::User(i) => flag_of(objects.user@, i, o),
    }
}

/// Whether objects of the kind of `k` have a container selected by `o`.
pub open spec fn kind_has_container(k: ObjectKey, o: ContainerOption) -> bool {
    match k {
        ObjectKey::Answer(_) => info::Answer::spec_has_flag(o),
        ObjectKey::Article(_) => info::Article::spec_has_flag(o),
        ObjectKey::Collection(_) => info::Collection::spec_has_flag(o),
        ObjectKey::Column(_) => info::Column::spec_has_flag(o),
        ObjectKey::Comment(_) => info::Comment::spec_has_flag(o),
        ObjectKey::Pin(_) => info::Pin::spec_has_flag(o),
        ObjectKey::Question(_) => info::Question::spec_has_flag(o),
        ObjectKey::User(_) => info::User::spec_has_flag(o),
    }
}

/// The name of the kind of an object, used as its directory in the store.
pub open spec fn spec_type_name(k: ObjectKey) -> Seq<char> {
    match k {

        ObjectKey::Answer(_) => "answer"@,
        ObjectKey::Article(_) => "article"@,
        ObjectKey::Collection(_) => "collection"@,
        ObjectKey::Column(_) => "column"@,
        ObjectKey::Comment(_) => "comment"@,
        ObjectKey::Pin(_) => "pin"@,
        ObjectKey::Question(_) => "question"@,
        ObjectKey::User(_) => "user"@,
    }
}

/// The identifier of an object as text: decimal for numbers, the column
/// name, or the hexadecimal user identifier.
pub open spec fn spec_id_text(k: ObjectKey) -> Seq<char> {
    match k {
        ObjectKey::Column(s) => s,
        ObjectKey::User(b) => hex_lower(b).map_values(|c: u8| c as char),

        ObjectKey::Answer(n) => decimal(n as nat),
        ObjectKey::Article(n) => decimal(n as nat),
        ObjectKey::Collection(n) => decimal(n as nat),
        ObjectKey::Comment(n) => decimal(n as nat),
        ObjectKey::Pin(n) => decimal(n as nat),
        ObjectKey::Question(n) => decimal(n as nat),
    }
}

impl ObjectRef {
    /// The name of the kind of the object.
    pub fn kind_name(&self) -> (r: String)
        ensures
            r@ == spec_type_name(self@),
    {
        match self {

            ObjectRef::Answer(_) => String::from_str("answer"),
            ObjectRef::Article(_) => String::from_str("article"),
            ObjectRef::Collection(_) => String::from_str("collection"),
            ObjectRef::Column(_) => String::from_str("column"),
            ObjectRef::Comment(_) => String::from_str("comment"),
            ObjectRef::Pin(_) => String::from_str("pin"),
            ObjectRef::Question(_) => String::from_str("question"),
            ObjectRef::User(_) => String::from_str("user"),
        }
    }

    /// The identifier of the object as text.
    pub fn id_text(&self) -> (r: String)
        ensures
            r@ == spec_id_text(self@),
    {
        match self {
            ObjectRef::Column(c) => c.0.clone(),
            ObjectRef::User(u) => u.to_hex(),

            ObjectRef::Answer(i) => u64_to_string(i.0),
            ObjectRef::Article(i) => u64_to_string(i.0),
            ObjectRef::Collection(i) => u64_to_string(i.0),
            ObjectRef::Comment(i) => u64_to_string(i.0),
            ObjectRef::Pin(i) => u64_to_string(i.0),
            ObjectRef::Question(i) => u64_to_string(i.0),
        }
    }
}

fn read_record<K: MapKey, R: HasContainer + Copy>(m: &KeyMap<K, R>, k: &K) -> (r: ItemInfo)
    ensures
        r == record_of(m@, k@),
{
    match m.get(k) {
        Some(v) => v.container(),
        None => {
            proof {
                R::lemma_default_container();
            }
            ItemInfo { in_store: false, on_server: true }
        },
    }
}

fn write_record<K: MapKey, R: HasContainer + Copy>(m: &mut KeyMap<K, R>, k: K, info: ItemInfo)
    ensures
        final(m)@ == old(m)@.insert(
            k@,
            (if old(m)@.contains_key(k@) {
                old(m)@[k@]
            } else {
                R::spec_default()
            }).spec_with_container(info),
        ),
        record_of(final(m)@, k@) == info,
        forall|x: K::V, p: ContainerOption| #[trigger] flag_of(final(m)@, x, p) == flag_of(old(m)@, x, p),
{
    let mut r = match m.get(&k) {
        Some(v) => *v,
        None => R::default_record(),
    };
    r.set_container(info);
    proof {
        R::lemma_with_container(
            if m@.contains_key(k@) {
                m@[k@]
            } else {
                R::spec_default()
            },
            info,
        );
        R::lemma_with_container_flags(
            if m@.contains_key(k@) {
                m@[k@]
            } else {
                R::spec_default()
            },
            info,
        );
        R::lemma_flags(R::spec_default());
    }
    m.insert(k, r);
}

fn read_flag<K: MapKey, R: HasContainer + Copy>(m: &KeyMap<K, R>, k: &K, o: ContainerOption) -> (r:
    bool)
    ensures
        r == flag_of(m@, k@, o),
{
    match m.get(k) {
        Some(v) => v.flag(o),
        None => false,
    }
}

fn write_flag<K: MapKey, R: HasContainer + Copy>(m: &mut KeyMap<K, R>, k: K, o: ContainerOption)
    ensures
        flag_of(final(m)@, k@, o) == R::spec_has_flag(o),
        forall|p: ContainerOption| p != o ==> #[trigger] flag_of(final(m)@, k@, p) == flag_of(old(m)@, k@, p),
        forall|kv: K::V| kv != k@ ==> #[trigger] final(m)@.contains_key(kv) == old(m)@.contains_key(kv),
        forall|kv: K::V| kv != k@ && old(m)@.contains_key(kv) ==> #[trigger] final(m)@[kv] == old(m)@[kv],
        record_of(final(m)@, k@) == record_of(old(m)@, k@),
{
    let mut r = match m.get(&k) {
        Some(v) => *v,
        None => R::default_record(),
    };
    let ghost r0 = r;
    proof {
        R::lemma_flags(r0);
        R::lemma_default_container();
    }
    r.set_flag(o);
    let ghost kv = k@;
    m.insert(k, r);
    proof {
        assert(r.spec_flag(o) == R::spec_has_flag(o));
        if !old(m)@.contains_key(kv) {
            assert forall|p: ContainerOption| p != o implies #[trigger] flag_of(m@, kv, p) == flag_of(old(m)@, kv, p) by {
                assert(!r0.spec_flag(p));
            }
        }
    }
}

/// The objects of a map whose record says they are stored, in entry order.
pub open spec fn stored_keys<K: View, R: HasContainer>(s: Seq<(K, R)>) -> Seq<K::V> {
    s.filter(|e: (K, R)| e.1.spec_container().in_store).map_values(|e: (K, R)| e.0@)
}

proof fn lemma_no_stored_keys<K: View, R: HasContainer>(s: Seq<(K, R)>)
    requires
        s.len() == 0,
    ensures
        stored_keys(s) == Seq::<K::V>::empty(),
{
    reveal(Seq::filter);
    assert(s.filter(|e: (K, R)| e.1.spec_container().in_store) =~= Seq::<(K, R)>::empty());
    assert(stored_keys(s) =~= Seq::<K::V>::empty());
}

proof fn lemma_stored_keys_exact<K: View, R: HasContainer>(s: Seq<(K, R)>)
    requires
        keys_distinct(s),
    ensures
        forall|kv: K::V| #[trigger] stored_keys(s).contains(kv) <==> record_of(entries_map(s), kv).in_store,
{
    lemma_entries_map(s);
    let f = |e: (K, R)| e.1.spec_container().in_store;
    let g = |e: (K, R)| e.0@;
    let t = s.filter(f);
    assert(stored_keys(s) == t.map_values(g));
    assert forall|kv: K::V| #[trigger] stored_keys(s).contains(kv) <==> record_of(entries_map(s), kv).in_store by {
        if stored_keys(s).contains(kv) {
            let j = choose|j: int| 0 <= j < t.map_values(g).len() && t.map_values(g)[j] == kv;
            s.lemma_filter_pred(f, j);
            assert(t.contains(t[j]));
            s.lemma_filter_contains_rev(f, t[j]);
            let i = choose|i: int| 0 <= i < s.len() && s[i] == t[j];
            assert(entries_map(s).contains_key(s[i].0@) && entries_map(s)[s[i].0@] == s[i].1);
        }
        if record_of(entries_map(s), kv).in_store {
            assert(entries_map(s).contains_key(kv));
            let i = choose|i: int| 0 <= i < s.len() && s[i].0@ == kv;
            assert(entries_map(s)[s[i].0@] == s[i].1);
            assert(f(s[i]));
            s.lemma_filter_contains(f, i);
            let j = choose|j: int| 0 <= j < t.len() && t[j] == s[i];
            assert(t.map_values(g)[j] == kv);
        }
    }
}

proof fn lemma_contains_concat<A>(a: Seq<A>, b: Seq<A>)
    ensures
        forall|x: A| #[trigger] (a + b).contains(x) <==> (a.contains(x) || b.contains(x)),
{
    assert forall|x: A| #[trigger] (a + b).contains(x) <==> (a.contains(x) || b.contains(x)) by {
        if (a + b).contains(x) {
            let j = choose|j: int| 0 <= j < (a + b).len() && (a + b)[j] == x;
            if j < a.len() {
                assert(a[j] == x);
            } else {
                assert(b[j - a.len()] == x);
            }
        }
        if a.contains(x) {
            let j = choose|j: int| 0 <= j < a.len() && a[j] == x;
            assert((a + b)[j] == x);
        }
        if b.contains(x) {
            let j = choose|j: int| 0 <= j < b.len() && b[j] == x;
            assert((a + b)[a.len() + j] == x);
        }
    }
}

proof fn lemma_contains_map<A, B>(s: Seq<A>, f: spec_fn(A) -> B)
    ensures
        forall|y: B| #[trigger] s.map_values(f).contains(y) <==> exists|a: A| s.contains(a) && f(a) == y,
{
    assert forall|y: B| #[trigger] s.map_values(f).contains(y) <==> exists|a: A| s.contains(a) && f(a) == y by {
        if s.map_values(f).contains(y) {
            let j = choose|j: int| 0 <= j < s.len() && s.map_values(f)[j] == y;
            assert(s.contains(s[j]) && f(s[j]) == y);
        }
        if exists|a: A| s.contains(a) && f(a) == y {
            let a = choose|a: A| s.contains(a) && f(a) == y;
            let j = choose|j: int| 0 <= j < s.len() && s[j] == a;
            assert(s.map_values(f)[j] == y);
        }
    }
}

/// Migration lists exactly the stored objects, of every kind: an object is
/// listed when and only when the records say it is in the store.
pub proof fn lemma_migration_targets_exact(objects: ObjectInfo)
    requires
        objects.answer.in_key_order(),
        objects.article.in_key_order(),
        objects.collection.in_key_order(),
        objects.column.in_key_order(),
        objects.comment.in_key_order(),
        objects.pin.in_key_order(),
        objects.question.in_key_order(),
        objects.user.in_key_order(),
    ensures
        forall|k: ObjectKey| #[trigger] migration_targets(objects).contains(k) <==> objects_info(objects, k).in_store,
{
    objects.answer.lemma_view_entries();
    objects.article.lemma_view_entries();
    objects.collection.lemma_view_entries();
    objects.column.lemma_view_entries();
    objects.comment.lemma_view_entries();
    objects.pin.lemma_view_entries();
    objects.question.lemma_view_entries();
    objects.user.lemma_view_entries();
    lemma_stored_keys_exact(objects.answer.spec_entries());
    lemma_stored_keys_exact(objects.article.spec_entries());
    lemma_stored_keys_exact(objects.collection.spec_entries());
    lemma_stored_keys_exact(objects.column.spec_entries());
    lemma_stored_keys_exact(objects.comment.spec_entries());
    lemma_stored_keys_exact(objects.pin.spec_entries());
    lemma_stored_keys_exact(objects.question.spec_entries());
    lemma_stored_keys_exact(objects.user.spec_entries());
    let f0 = |i: u64| ObjectKey::Answer(i);
    let f1 = |i: u64| ObjectKey::Article(i);
    let f2 = |i: u64| ObjectKey::Collection(i);
    let f3 = |i: Seq<char>| ObjectKey::Column(i);
    let f4 = |i: u64| ObjectKey::Comment(i);
    let f5 = |i: u64| ObjectKey::Pin(i);
    let f6 = |i: u64| ObjectKey::Question(i);
    let f7 = |i: Seq<u8>| ObjectKey::User(i);
    let s0 = stored_keys(objects.answer.spec_entries()).map_values(f0);
    let s1 = stored_keys(objects.article.spec_entries()).map_values(f1);
    let s2 = stored_keys(objects.collection.spec_entries()).map_values(f2);
    let s3 = stored_keys(objects.column.spec_entries()).map_values(f3);
    let s4 = stored_keys(objects.comment.spec_entries()).map_values(f4);
    let s5 = stored_keys(objects.pin.spec_entries()).map_values(f5);
    let s6 = stored_keys(objects.question.spec_entries()).map_values(f6);
    let s7 = stored_keys(objects.user.spec_entries()).map_values(f7);
    lemma_contains_map(stored_keys(objects.answer.spec_entries()), f0);
    lemma_contains_map(stored_keys(objects.article.spec_entries()), f1);
    lemma_contains_map(stored_keys(objects.collection.spec_entries()), f2);
    lemma_contains_map(stored_keys(objects.column.spec_entries()), f3);
    lemma_contains_map(stored_keys(objects.comment.spec_entries()), f4);
    lemma_contains_map(stored_keys(objects.pin.spec_entries()), f5);
    lemma_contains_map(stored_keys(objects.question.spec_entries()), f6);
    lemma_contains_map(stored_keys(objects.user.spec_entries()), f7);
    lemma_contains_concat(s0, s1);
    lemma_contains_concat(s0 + s1, s2);
    lemma_contains_concat(s0 + s1 + s2, s3);
    lemma_contains_concat(s0 + s1 + s2 + s3, s4);
    lemma_contains_concat(s0 + s1 + s2 + s3 + s4, s5);
    lemma_contains_concat(s0 + s1 + s2 + s3 + s4 + s5, s6);
    lemma_contains_concat(s0 + s1 + s2 + s3 + s4 + s5 + s6, s7);
    assert(migration_targets(objects) == s0 + s1 + s2 + s3 + s4 + s5 + s6 + s7);
    assert forall|k: ObjectKey| #[trigger] migration_targets(objects).contains(k) <==> objects_info(objects, k).in_store by {
        let all = s0 + s1 + s2 + s3 + s4 + s5 + s6 + s7;
        assert(all.contains(k) <==> (s0.contains(k) || s1.contains(k) || s2.contains(k) || s3.contains(k)
            || s4.contains(k) || s5.contains(k) || s6.contains(k) || s7.contains(k)));
        match k {
            ObjectKey::Answer(i) => { assert(s0.contains(k) <==> stored_keys(objects.answer.spec_entries()).contains(i)); },
            ObjectKey::Article(i) => { assert(s1.contains(k) <==> stored_keys(objects.article.spec_entries()).contains(i)); },
            ObjectKey::Collection(i) => { assert(s2.contains(k) <==> stored_keys(objects.collection.spec_entries()).contains(i)); },
            ObjectKey::Column(i) => { assert(s3.contains(k) <==> stored_keys(objects.column.spec_entries()).contains(i)); },
            ObjectKey::Comment(i) => { assert(s4.contains(k) <==> stored_keys(objects.comment.spec_entries()).contains(i)); },
            ObjectKey::Pin(i) => { assert(s5.contains(k) <==> stored_keys(objects.pin.spec_entries()).contains(i)); },
            ObjectKey::Question(i) => { assert(s6.contains(k) <==> stored_keys(objects.question.spec_entries()).contains(i)); },
            ObjectKey::User(i) => { assert(s7.contains(k) <==> stored_keys(objects.user.spec_entries()).contains(i)); },
        }
    }
}

proof fn lemma_filter_step<A>(s: Seq<A>, i: int, f: spec_fn(A) -> bool)
    requires
        0 <= i < s.len(),
    ensures
        s.take(i + 1).filter(f) == (if f(s[i]) {
            s.take(i).filter(f).push(s[i])
        } else {
            s.take(i).filter(f)
        }),
{
    reveal(Seq::filter);
    assert(s.take(i + 1).drop_last() =~= s.take(i));
}

fn collect_stored<K: MapKey, R: HasContainer>(m: &KeyMap<K, R>) -> (r: Vec<K>)
    ensures
        m.in_key_order(),
        r@.map_values(|k: K| k@) == stored_keys(m.spec_entries()),
        forall|a: int, b: int|
            0 <= a < b < r@.len() ==> K::spec_lt(
                #[trigger] stored_keys(m.spec_entries())[a],
                #[trigger] stored_keys(m.spec_entries())[b],
            ),
{
    let entries = m.entries();
    let ghost s = entries@;
    let ghost f = |e: (K, R)| e.1.spec_container().in_store;
    let mut out: Vec<K> = Vec::new();
    let mut i: usize = 0;
    while i < entries.len()
        invariant
            0 <= i <= s.len(),
            entries@ == s,
            f == (|e: (K, R)| e.1.spec_container().in_store),
            out@.map_values(|k: K| k@) =~= s.take(i as int).filter(f).map_values(|e: (K, R)| e.0@),
            keys_ascending(s),
            forall|a: int, b: int| 0 <= a < b < out@.len() ==> K::spec_lt(#[trigger] out@[a]@, #[trigger] out@[b]@),
            forall|a: int, c: int| 0 <= a < out@.len() && i <= c < s.len() ==> K::spec_lt(#[trigger] out@[a]@, #[trigger] s[c].0@),
        decreases s.len() - i,
    {
        proof {
            lemma_filter_step(s, i as int, f);
        }
        let ghost prev = out@;
        let ghost t = s.take(i as int).filter(f);
        if entries[i].1.container().in_store {
            let k = entries[i].0.key_clone();
            out.push(k);
            proof {
                assert forall|a: int, b: int| 0 <= a < b < out@.len() implies K::spec_lt(#[trigger] out@[a]@, #[trigger] out@[b]@) by {
                    if b < out@.len() - 1 {
                        assert(out@[a] == prev[a] && out@[b] == prev[b]);
                    } else {
                        assert(out@[a] == prev[a]);
                    }
                }
                assert forall|a: int, c: int| 0 <= a < out@.len() && i + 1 <= c < s.len() implies K::spec_lt(#[trigger] out@[a]@, #[trigger] s[c].0@) by {
                    if a < out@.len() - 1 {
                        assert(out@[a] == prev[a]);
                    }
                }
                assert(f(s[i as int]));
                assert(out@.map_values(|k: K| k@) =~= prev.map_values(|k: K| k@).push(s[i as int].0@));
                assert(t.push(s[i as int]).map_values(|e: (K, R)| e.0@) =~= t.map_values(
                    |e: (K, R)| e.0@,
                ).push(s[i as int].0@));
            }
        } else {
            proof {
                assert(!f(s[i as int]));
            }
        }
        i = i + 1;
    }
    assert(s.take(s.len() as int) =~= s);
    proof {
        assert forall|a: int, b: int|
            0 <= a < b < out@.len() implies K::spec_lt(
            #[trigger] stored_keys(m.spec_entries())[a],
            #[trigger] stored_keys(m.spec_entries())[b],
        ) by {
            assert(out@.map_values(|k: K| k@)[a] == out@[a]@);
            assert(out@.map_values(|k: K| k@)[b] == out@[b]@);
        }
    }
    out
}

fn push_answer_refs(out: &mut Vec<ObjectRef>, keys: Vec<AnswerId>)
    ensures
        final(out)@.map_values(|o: ObjectRef| o@) == old(out)@.map_values(|o: ObjectRef| o@)
            + keys@.map_values(|k: AnswerId| k@).map_values(|i: u64| ObjectKey::Answer(i)),
{
    let ghost start = out@;
    let mut j: usize = 0;
    while j < keys.len()
        invariant
            0 <= j <= keys@.len(),
            out@.map_values(|o: ObjectRef| o@) =~= start.map_values(|o: ObjectRef| o@)
                + keys@.take(j as int).map_values(|k: AnswerId| ObjectKey::Answer(k@)),
        decreases keys@.len() - j,
    {
        let ghost prev = out@;
        let x = ObjectRef::Answer(keys[j].key_clone());
        out.push(x);
        proof {
            assert(out@.map_values(|o: ObjectRef| o@) =~= prev.map_values(|o: ObjectRef| o@).push(x@));
            assert(keys@.take(j + 1).map_values(|k: AnswerId| ObjectKey::Answer(k@)) =~= keys@.take(
                j as int,
            ).map_values(|k: AnswerId| ObjectKey::Answer(k@)).push(ObjectKey::Answer(keys@[j as int]@)));
        }
        j = j + 1;
    }
    assert(keys@.take(keys@.len() as int) =~= keys@);
    assert(keys@.map_values(|k: AnswerId| ObjectKey::Answer(k@)) =~= keys@.map_values(|k: AnswerId| k@).map_values(
        |i: u64| ObjectKey::Answer(i),
    ));
}

fn push_article_refs(out: &mut Vec<ObjectRef>, keys: Vec<ArticleId>)
    ensures
        final(out)@.map_values(|o: ObjectRef| o@) == old(out)@.map_values(|o: ObjectRef| o@)
            + keys@.map_values(|k: ArticleId| k@).map_values(|i: u64| ObjectKey::Article(i)),
{
    let ghost start = out@;
    let mut j: usize = 0;
    while j < keys.len()
        invariant
            0 <= j <= keys@.len(),
            out@.map_values(|o: ObjectRef| o@) =~= start.map_values(|o: ObjectRef| o@)
                + keys@.take(j as int).map_values(|k: ArticleId| ObjectKey::Article(k@)),
        decreases keys@.len() - j,
    {
        let ghost prev = out@;
        let x = ObjectRef::Article(keys[j].key_clone());
        out.push(x);
        proof {
            assert(out@.map_values(|o: ObjectRef| o@) =~= prev.map_values(|o: ObjectRef| o@).push(x@));
            assert(keys@.take(j + 1).map_values(|k: ArticleId| ObjectKey::Article(k@)) =~= keys@.take(
                j as int,
            ).map_values(|k: ArticleId| ObjectKey::Article(k@)).push(ObjectKey::Article(keys@[j as int]@)));
        }
        j = j + 1;
    }
    assert(keys@.take(keys@.len() as int) =~= keys@);
    assert(keys@.map_values(|k: ArticleId| ObjectKey::Article(k@)) =~= keys@.map_values(|k: ArticleId| k@).map_values(
        |i: u64| ObjectKey::Article(i),
    ));
}

fn push_collection_refs(out: &mut Vec<ObjectRef>, keys: Vec<CollectionId>)
    ensures
        final(out)@.map_values(|o: ObjectRef| o@) == old(out)@.map_values(|o: ObjectRef| o@)
            + keys@.map_values(|k: CollectionId| k@).map_values(|i: u64| ObjectKey::Collection(i)),
{
    let ghost start = out@;
    let mut j: usize = 0;
    while j < keys.len()
        invariant
            0 <= j <= keys@.len(),
            out@.map_values(|o: ObjectRef| o@) =~= start.map_values(|o: ObjectRef| o@)
                + keys@.take(j as int).map_values(|k: CollectionId| ObjectKey::Collection(k@)),
        decreases keys@.len() - j,
    {
        let ghost prev = out@;
        let x = ObjectRef::Collection(keys[j].key_clone());
        out.push(x);
        proof {
            assert(out@.map_values(|o: ObjectRef| o@) =~= prev.map_values(|o: ObjectRef| o@).push(x@));
            assert(keys@.take(j + 1).map_values(|k: CollectionId| ObjectKey::Collection(k@)) =~= keys@.take(
                j as int,
            ).map_values(|k: CollectionId| ObjectKey::Collection(k@)).push(ObjectKey::Collection(keys@[j as int]@)));
        }
        j = j + 1;
    }
    assert(keys@.take(keys@.len() as int) =~= keys@);
    assert(keys@.map_values(|k: CollectionId| ObjectKey::Collection(k@)) =~= keys@.map_values(|k: CollectionId| k@).map_values(
        |i: u64| ObjectKey::Collection(i),
    ));
}

fn push_column_refs(out: &mut Vec<ObjectRef>, keys: Vec<ColumnId>)
    ensures
        final(out)@.map_values(|o: ObjectRef| o@) == old(out)@.map_values(|o: ObjectRef| o@)
            + keys@.map_values(|k: ColumnId| k@).map_values(|i: Seq<char>| ObjectKey::Column(i)),
{
    let ghost start = out@;
    let mut j: usize = 0;
    while j < keys.len()
        invariant
            0 <= j <= keys@.len(),
            out@.map_values(|o: ObjectRef| o@) =~= start.map_values(|o: ObjectRef| o@)
                + keys@.take(j as int).map_values(|k: ColumnId| ObjectKey::Column(k@)),
        decreases keys@.len() - j,
    {
        let ghost prev = out@;
        let x = ObjectRef::Column(keys[j].key_clone());
        out.push(x);
        proof {
            assert(out@.map_values(|o: ObjectRef| o@) =~= prev.map_values(|o: ObjectRef| o@).push(x@));
            assert(keys@.take(j + 1).map_values(|k: ColumnId| ObjectKey::Column(k@)) =~= keys@.take(
                j as int,
            ).map_values(|k: ColumnId| ObjectKey::Column(k@)).push(ObjectKey::Column(keys@[j as int]@)));
        }
        j = j + 1;
    }
    assert(keys@.take(keys@.len() as int) =~= keys@);
    assert(keys@.map_values(|k: ColumnId| ObjectKey::Column(k@)) =~= keys@.map_values(|k: ColumnId| k@).map_values(
        |i: Seq<char>| ObjectKey::Column(i),
    ));
}

fn push_comment_refs(out: &mut Vec<ObjectRef>, keys: Vec<CommentId>)
    ensures
        final(out)@.map_values(|o: ObjectRef| o@) == old(out)@.map_values(|o: ObjectRef| o@)
            + keys@.map_values(|k: CommentId| k@).map_values(|i: u64| ObjectKey::Comment(i)),
{
    let ghost start = out@;
    let mut j: usize = 0;
    while j < keys.len()
        invariant
            0 <= j <= keys@.len(),
            out@.map_values(|o: ObjectRef| o@) =~= start.map_values(|o: ObjectRef| o@)
                + keys@.take(j as int).map_values(|k: CommentId| ObjectKey::Comment(k@)),
        decreases keys@.len() - j,
    {
        let ghost prev = out@;
        let x = ObjectRef::Comment(keys[j].key_clone());
        out.push(x);
        proof {
            assert(out@.map_values(|o: ObjectRef| o@) =~= prev.map_values(|o: ObjectRef| o@).push(x@));
            assert(keys@.take(j + 1).map_values(|k: CommentId| ObjectKey::Comment(k@)) =~= keys@.take(
                j as int,
            ).map_values(|k: CommentId| ObjectKey::Comment(k@)).push(ObjectKey::Comment(keys@[j as int]@)));
        }
        j = j + 1;
    }
    assert(keys@.take(keys@.len() as int) =~= keys@);
    assert(keys@.map_values(|k: CommentId| ObjectKey::Comment(k@)) =~= keys@.map_values(|k: CommentId| k@).map_values(
        |i: u64| ObjectKey::Comment(i),
    ));
}

fn push_pin_refs(out: &mut Vec<ObjectRef>, keys: Vec<PinId>)
    ensures
        final(out)@.map_values(|o: ObjectRef| o@) == old(out)@.map_values(|o: ObjectRef| o@)
            + keys@.map_values(|k: PinId| k@).map_values(|i: u64| ObjectKey::Pin(i)),
{
    let ghost start = out@;
    let mut j: usize = 0;
    while j < keys.len()
        invariant
            0 <= j <= keys@.len(),
            out@.map_values(|o: ObjectRef| o@) =~= start.map_values(|o: ObjectRef| o@)
                + keys@.take(j as int).map_values(|k: PinId| ObjectKey::Pin(k@)),
        decreases keys@.len() - j,
    {
        let ghost prev = out@;
        let x = ObjectRef::Pin(keys[j].key_clone());
        out.push(x);
        proof {
            assert(out@.map_values(|o: ObjectRef| o@) =~= prev.map_values(|o: ObjectRef| o@).push(x@));
            assert(keys@.take(j + 1).map_values(|k: PinId| ObjectKey::Pin(k@)) =~= keys@.take(
                j as int,
            ).map_values(|k: PinId| ObjectKey::Pin(k@)).push(ObjectKey::Pin(keys@[j as int]@)));
        }
        j = j + 1;
    }
    assert(keys@.take(keys@.len() as int) =~= keys@);
    assert(keys@.map_values(|k: PinId| ObjectKey::Pin(k@)) =~= keys@.map_values(|k: PinId| k@).map_values(
        |i: u64| ObjectKey::Pin(i),
    ));
}

fn push_question_refs(out: &mut Vec<ObjectRef>, keys: Vec<QuestionId>)
    ensures
        final(out)@.map_values(|o: ObjectRef| o@) == old(out)@.map_values(|o: ObjectRef| o@)
            + keys@.map_values(|k: QuestionId| k@).map_values(|i: u64| ObjectKey::Question(i)),
{
    let ghost start = out@;
    let mut j: usize = 0;
    while j < keys.len()
        invariant
            0 <= j <= keys@.len(),
            out@.map_values(|o: ObjectRef| o@) =~= start.map_values(|o: ObjectRef| o@)
                + keys@.take(j as int).map_values(|k: QuestionId| ObjectKey::Question(k@)),
        decreases keys@.len() - j,
    {
        let ghost prev = out@;
        let x = ObjectRef::Question(keys[j].key_clone());
        out.push(x);
        proof {
            assert(out@.map_values(|o: ObjectRef| o@) =~= prev.map_values(|o: ObjectRef| o@).push(x@));
            assert(keys@.take(j + 1).map_values(|k: QuestionId| ObjectKey::Question(k@)) =~= keys@.take(
                j as int,
            ).map_values(|k: QuestionId| ObjectKey::Question(k@)).push(ObjectKey::Question(keys@[j as int]@)));
        }
        j = j + 1;
    }
    assert(keys@.take(keys@.len() as int) =~= keys@);
    assert(keys@.map_values(|k: QuestionId| ObjectKey::Question(k@)) =~= keys@.map_values(|k: QuestionId| k@).map_values(
        |i: u64| ObjectKey::Question(i),
    ));
}

fn push_user_refs(out: &mut Vec<ObjectRef>, keys: Vec<UserId>)
    ensures
        final(out)@.map_values(|o: ObjectRef| o@) == old(out)@.map_values(|o: ObjectRef| o@)
            + keys@.map_values(|k: UserId| k@).map_values(|i: Seq<u8>| ObjectKey::User(i)),
{
    let ghost start = out@;
    let mut j: usize = 0;
    while j < keys.len()
        invariant
            0 <= j <= keys@.len(),
            out@.map_values(|o: ObjectRef| o@) =~= start.map_values(|o: ObjectRef| o@)
                + keys@.take(j as int).map_values(|k: UserId| ObjectKey::User(k@)),
        decreases keys@.len() - j,
    {
        let ghost prev = out@;
        let x = ObjectRef::User(keys[j].key_clone());
        out.push(x);
        proof {
            assert(out@.map_values(|o: ObjectRef| o@) =~= prev.map_values(|o: ObjectRef| o@).push(x@));
            assert(keys@.take(j + 1).map_values(|k: UserId| ObjectKey::User(k@)) =~= keys@.take(
                j as int,
            ).map_values(|k: UserId| ObjectKey::User(k@)).push(ObjectKey::User(keys@[j as int]@)));
        }
        j = j + 1;
    }
    assert(keys@.take(keys@.len() as int) =~= keys@);
    assert(keys@.map_values(|k: UserId| ObjectKey::User(k@)) =~= keys@.map_values(|k: UserId| k@).map_values(
        |i: Seq<u8>| ObjectKey::User(i),
    ));
}

/// The objects to migrate: every stored object, kind by kind in the order
/// answer, article, collection, column, comment, pin, question, user.
pub open spec fn migration_targets(objects: ObjectInfo) -> Seq<ObjectKey> {

    stored_keys(objects.answer.spec_entries()).map_values(|i: u64| ObjectKey::Answer(i))
        + stored_keys(objects.article.spec_entries()).map_values(|i: u64| ObjectKey::Article(i))
        + stored_keys(objects.collection.spec_entries()).map_values(|i: u64| ObjectKey::Collection(i))
        + stored_keys(objects.column.spec_entries()).map_values(|i: Seq<char>| ObjectKey::Column(i))
        + stored_keys(objects.comment.spec_entries()).map_values(|i: u64| ObjectKey::Comment(i))
        + stored_keys(objects.pin.spec_entries()).map_values(|i: u64| ObjectKey::Pin(i))
        + stored_keys(objects.question.spec_entries()).map_values(|i: u64| ObjectKey::Question(i))
        + stored_keys(objects.user.spec_entries()).map_values(|i: Seq<u8>| ObjectKey::User(i))
}

/// The place of an object's kind in the order objects are listed: answer,
/// article, collection, column, comment, pin, question, user.
pub open spec fn kind_rank(k: ObjectKey) -> int {
    match k {
        ObjectKey::Answer(_) => 0,
        ObjectKey::Article(_) => 1,
        ObjectKey::Collection(_) => 2,
        ObjectKey::Column(_) => 3,
        ObjectKey::Comment(_) => 4,
        ObjectKey::Pin(_) => 5,
        ObjectKey::Question(_) => 6,
        ObjectKey::User(_) => 7,
    }
}

/// Whether object `a` is listed before object `b`: by kind, and within a
/// kind by ascending identifier.
pub open spec fn object_lt(a: ObjectKey, b: ObjectKey) -> bool {
    if kind_rank(a) != kind_rank(b) {
        kind_rank(a) < kind_rank(b)
    } else {
        match (a, b) {
            (ObjectKey::Answer(x), ObjectKey::Answer(y)) => x < y,
            (ObjectKey::Article(x), ObjectKey::Article(y)) => x < y,
            (ObjectKey::Collection(x), ObjectKey::Collection(y)) => x < y,
            (ObjectKey::Column(x), ObjectKey::Column(y)) => lex_lt(char_codes(x), char_codes(y)),
            (ObjectKey::Comment(x), ObjectKey::Comment(y)) => x < y,
            (ObjectKey::Pin(x), ObjectKey::Pin(y)) => x < y,
            (ObjectKey::Question(x), ObjectKey::Question(y)) => x < y,
            (ObjectKey::User(x), ObjectKey::User(y)) => lex_lt(byte_values(x), byte_values(y)),
            _ => false,
        }
    }
}

/// Whether objects are listed in strictly ascending order (see `object_lt`).
pub open spec fn objects_ascending(s: Seq<ObjectKey>) -> bool {
    forall|i: int, j: int| 0 <= i < j < s.len() ==> object_lt(s[i], s[j])
}

/// Two ascending lists, the first of lower kinds than the second, make an
/// ascending list.
proof fn lemma_join_ascending(a: Seq<ObjectKey>, b: Seq<ObjectKey>, r: int)
    requires
        objects_ascending(a),
        objects_ascending(b),
        forall|i: int| 0 <= i < a.len() ==> kind_rank(#[trigger] a[i]) < r,
        forall|j: int| 0 <= j < b.len() ==> kind_rank(#[trigger] b[j]) == r,
    ensures
        objects_ascending(a + b),
        forall|i: int| 0 <= i < (a + b).len() ==> kind_rank(#[trigger] (a + b)[i]) <= r,
{
    assert forall|i: int, j: int| 0 <= i < j < (a + b).len() implies object_lt((a + b)[i], (a + b)[j]) by {
        if j < a.len() {
            assert((a + b)[i] == a[i] && (a + b)[j] == a[j]);
        } else if i < a.len() {
            assert((a + b)[i] == a[i] && (a + b)[j] == b[j - a.len()]);
        } else {
            assert((a + b)[i] == b[i - a.len()] && (a + b)[j] == b[j - a.len()]);
        }
    }
    assert forall|i: int| 0 <= i < (a + b).len() implies kind_rank(#[trigger] (a + b)[i]) <= r by {
        if i < a.len() {
            assert((a + b)[i] == a[i]);
        } else {
            assert((a + b)[i] == b[i - a.len()]);
        }
    }
}

/// The stored objects are listed for migration in ascending order.
proof fn lemma_migration_order(objects: ObjectInfo)
    requires
        forall|a: int, b: int| 0 <= a < b < stored_keys(objects.answer.spec_entries()).len() ==> #[trigger] stored_keys(objects.answer.spec_entries())[a] < #[trigger] stored_keys(objects.answer.spec_entries())[b],
        forall|a: int, b: int| 0 <= a < b < stored_keys(objects.article.spec_entries()).len() ==> #[trigger] stored_keys(objects.article.spec_entries())[a] < #[trigger] stored_keys(objects.article.spec_entries())[b],
        forall|a: int, b: int| 0 <= a < b < stored_keys(objects.collection.spec_entries()).len() ==> #[trigger] stored_keys(objects.collection.spec_entries())[a] < #[trigger] stored_keys(objects.collection.spec_entries())[b],
        forall|a: int, b: int| 0 <= a < b < stored_keys(objects.column.spec_entries()).len() ==> lex_lt(char_codes(#[trigger] stored_keys(objects.column.spec_entries())[a]), char_codes(#[trigger] stored_keys(objects.column.spec_entries())[b])),
        forall|a: int, b: int| 0 <= a < b < stored_keys(objects.comment.spec_entries()).len() ==> #[trigger] stored_keys(objects.comment.spec_entries())[a] < #[trigger] stored_keys(objects.comment.spec_entries())[b],
        forall|a: int, b: int| 0 <= a < b < stored_keys(objects.pin.spec_entries()).len() ==> #[trigger] stored_keys(objects.pin.spec_entries())[a] < #[trigger] stored_keys(objects.pin.spec_entries())[b],
        forall|a: int, b: int| 0 <= a < b < stored_keys(objects.question.spec_entries()).len() ==> #[trigger] stored_keys(objects.question.spec_entries())[a] < #[trigger] stored_keys(objects.question.spec_entries())[b],
        forall|a: int, b: int| 0 <= a < b < stored_keys(objects.user.spec_entries()).len() ==> lex_lt(byte_values(#[trigger] stored_keys(objects.user.spec_entries())[a]), byte_values(#[trigger] stored_keys(objects.user.spec_entries())[b])),
    ensures
        objects_ascending(migration_targets(objects)),
{
    let s0 = stored_keys(objects.answer.spec_entries()).map_values(|i: u64| ObjectKey::Answer(i));
    let s1 = stored_keys(objects.article.spec_entries()).map_values(|i: u64| ObjectKey::Article(i));
    let s2 = stored_keys(objects.collection.spec_entries()).map_values(|i: u64| ObjectKey::Collection(i));
    let s3 = stored_keys(objects.column.spec_entries()).map_values(|i: Seq<char>| ObjectKey::Column(i));
    let s4 = stored_keys(objects.comment.spec_entries()).map_values(|i: u64| ObjectKey::Comment(i));
    let s5 = stored_keys(objects.pin.spec_entries()).map_values(|i: u64| ObjectKey::Pin(i));
    let s6 = stored_keys(objects.question.spec_entries()).map_values(|i: u64| ObjectKey::Question(i));
    let s7 = stored_keys(objects.user.spec_entries()).map_values(|i: Seq<u8>| ObjectKey::User(i));
    assert(objects_ascending(s0)) by { assert forall|i: int, j: int| 0 <= i < j < s0.len() implies object_lt(s0[i], s0[j]) by { assert(stored_keys(objects.answer.spec_entries())[i] < stored_keys(objects.answer.spec_entries())[j]); } }
    assert(objects_ascending(s1)) by { assert forall|i: int, j: int| 0 <= i < j < s1.len() implies object_lt(s1[i], s1[j]) by { assert(stored_keys(objects.article.spec_entries())[i] < stored_keys(objects.article.spec_entries())[j]); } }
    assert(objects_ascending(s2)) by { assert forall|i: int, j: int| 0 <= i < j < s2.len() implies object_lt(s2[i], s2[j]) by { assert(stored_keys(objects.collection.spec_entries())[i] < stored_keys(objects.collection.spec_entries())[j]); } }
    assert(objects_ascending(s3)) by { assert forall|i: int, j: int| 0 <= i < j < s3.len() implies object_lt(s3[i], s3[j]) by { assert(lex_lt(char_codes(stored_keys(objects.column.spec_entries())[i]), char_codes(stored_keys(objects.column.spec_entries())[j]))); } }
    assert(objects_ascending(s4)) by { assert forall|i: int, j: int| 0 <= i < j < s4.len() implies object_lt(s4[i], s4[j]) by { assert(stored_keys(objects.comment.spec_entries())[i] < stored_keys(objects.comment.spec_entries())[j]); } }
    assert(objects_ascending(s5)) by { assert forall|i: int, j: int| 0 <= i < j < s5.len() implies object_lt(s5[i], s5[j]) by { assert(stored_keys(objects.pin.spec_entries())[i] < stored_keys(objects.pin.spec_entries())[j]); } }
    assert(objects_ascending(s6)) by { assert forall|i: int, j: int| 0 <= i < j < s6.len() implies object_lt(s6[i], s6[j]) by { assert(stored_keys(objects.question.spec_entries())[i] < stored_keys(objects.question.spec_entries())[j]); } }
    assert(objects_ascending(s7)) by { assert forall|i: int, j: int| 0 <= i < j < s7.len() implies object_lt(s7[i], s7[j]) by { assert(lex_lt(byte_values(stored_keys(objects.user.spec_entries())[i]), byte_values(stored_keys(objects.user.spec_entries())[j]))); } }
    lemma_join_ascending(s0, s1, 1);
    lemma_join_ascending(s0 + s1, s2, 2);
    lemma_join_ascending(s0 + s1 + s2, s3, 3);
    lemma_join_ascending(s0 + s1 + s2 + s3, s4, 4);
    lemma_join_ascending(s0 + s1 + s2 + s3 + s4, s5, 5);
    lemma_join_ascending(s0 + s1 + s2 + s3 + s4 + s5, s6, 6);
    lemma_join_ascending(s0 + s1 + s2 + s3 + s4 + s5 + s6, s7, 7);
}

/// The text of a path up to and including its last `/`; empty where it has
/// none.
pub open spec fn dir_prefix(p: Seq<char>) -> Seq<char>
    decreases p.len(),
{
    if p.len() == 0 || p.last() == '/' {
        p
    } else {
        dir_prefix(p.drop_last())
    }
}

/// How a call of a `Store` method that takes it mutably bears on its state
/// of being saved.
#[derive(Debug, Clone, Copy, PartialEq, Eq)]
pub enum StoreCall {
    /// The version and the records were written out (`save`).
    Save,
    /// Records were written (`add_info`, `add_object`,
    /// `add_container_info`, marking items).
    Write,
    /// Nothing that needs saving changed (`finish_migration`,
    /// `end_migration`, marking no item).
    Keep,
}

/// What every call does: the root stays; after `Save` nothing is unsaved,
/// after `Write` the store is unsaved, after `Keep` that is as it was.
pub open spec fn call_effect(before: Store, call: StoreCall, after: Store) -> bool {
    &&& after.spec_root() == before.spec_root()
    &&& match call {
        StoreCall::Save => !after.spec_dirty(),
        StoreCall::Write => after.spec_dirty(),
        StoreCall::Keep => after.spec_dirty() == before.spec_dirty(),
    }
}

/// Whether `states` are the states of a store through the calls `calls`.
pub open spec fn calls_made(states: Seq<Store>, calls: Seq<StoreCall>) -> bool {
    &&& states.len() == calls.len() + 1
    &&& forall|i: int| 0 <= i < calls.len() ==> call_effect(#[trigger] states[i], calls[i], states[i + 1])
}

/// Whether a call among `calls` wrote records after the last `Save`.
pub open spec fn written_since_save(calls: Seq<StoreCall>) -> bool
    decreases calls.len(),
{
    if calls.len() == 0 {
        false
    } else {
        match calls.last() {
            StoreCall::Save => false,
            StoreCall::Write => true,
            StoreCall::Keep => written_since_save(calls.drop_last()),
        }
    }
}

/// Through any sequence of calls a store keeps its root; afterwards it
/// holds unsaved changes exactly when a call wrote records after the last
/// save (or, where no call saved, when it held some at the start or a call
/// wrote records).
pub proof fn lemma_store_calls(states: Seq<Store>, calls: Seq<StoreCall>)
    requires
        calls_made(states, calls),
    ensures
        states.last().spec_root() == states[0].spec_root(),
        states.last().spec_dirty() == (written_since_save(calls) || (states[0].spec_dirty() && !calls.contains(StoreCall::Save))),
    decreases calls.len(),
{
    if calls.len() > 0 {
        let n = calls.len() - 1;
        let init = calls.drop_last();
        let prev = states.drop_last();
        assert(calls_made(prev, init)) by {
            assert forall|i: int| 0 <= i < init.len() implies call_effect(#[trigger] prev[i], init[i], prev[i + 1]) by {
                assert(call_effect(states[i], calls[i], states[i + 1]));
            }
        }
        lemma_store_calls(prev, init);
        assert(call_effect(states[n], calls[n], states[n + 1]));
        assert(prev.last() == states[n]);
        assert(calls.contains(StoreCall::Save) == (init.contains(StoreCall::Save) || calls[n] == StoreCall::Save)) by {
            if calls.contains(StoreCall::Save) {
                let j = choose|j: int| 0 <= j < calls.len() && calls[j] == StoreCall::Save;
                if j < n {
                    assert(init[j] == StoreCall::Save);
                }
            }
            if init.contains(StoreCall::Save) {
                let j = choose|j: int| 0 <= j < init.len() && init[j] == StoreCall::Save;
                assert(calls[j] == StoreCall::Save);
            }
        }
    }
}

/// The store of one website.
pub struct Store {
    version: Version,
    dirty: bool,
    root: String,
    objects: ObjectInfo,
}

impl Store {
    /// Every store is of a format version that this program reads.
    #[verifier::type_invariant]
    spec fn readable(self) -> bool {
        spec_store_version().spec_is_compatible(self.version)
    }

    /// The format version of the store.
    pub closed spec fn spec_version(&self) -> Version {
        self.version
    }

    /// The object records, as they are written out.
    pub closed spec fn spec_objects(&self) -> ObjectInfo {
        self.objects
    }

    /// Whether records changed since the store was last saved.
    pub closed spec fn spec_dirty(&self) -> bool {
        self.dirty
    }

    /// The directory of the store.
    pub closed spec fn spec_root(&self) -> Seq<char> {
        self.root@
    }

    /// What the store records of an object.
    pub closed spec fn spec_info(&self, k: ObjectKey) -> ItemInfo {
        objects_info(self.objects, k)
    }

    /// Whether the container `o` of the object `k` is stored.
    pub closed spec fn spec_container_stored(&self, k: ObjectKey, o: ContainerOption) -> bool {
        objects_flag(self.objects, k, o)
    }

    /// The objects that `migrate` lists.
    pub closed spec fn spec_migration_targets(&self) -> Seq<ObjectKey> {
        migration_targets(self.objects)
    }

    /// A new, empty store in directory `root`, of the current version.
    pub fn create(root: String) -> (r: Store)
        ensures
            r.spec_version() == spec_store_version(),
            !r.spec_dirty(),
            r.spec_root() == root@,
            forall|k: ObjectKey| #[trigger] r.spec_info(k) == spec_default_item_info(),
            forall|k: ObjectKey, o: ContainerOption| !#[trigger] r.spec_container_stored(k, o),
            r.spec_migration_targets() == Seq::<ObjectKey>::empty(),
    {
        let r = Store { version: store_version(), dirty: false, root, objects: ObjectInfo::new() };
        proof {
            lemma_no_stored_keys(r.objects.answer.spec_entries());
            lemma_no_stored_keys(r.objects.article.spec_entries());
            lemma_no_stored_keys(r.objects.collection.spec_entries());
            lemma_no_stored_keys(r.objects.column.spec_entries());
            lemma_no_stored_keys(r.objects.comment.spec_entries());
            lemma_no_stored_keys(r.objects.pin.spec_entries());
            lemma_no_stored_keys(r.objects.question.spec_entries());
            lemma_no_stored_keys(r.objects.user.spec_entries());
            assert(migration_targets(r.objects) =~= Seq::<ObjectKey>::empty());
        }
        r
    }

    /// A store read back from its directory `root`, its version file and its
    /// object records. It is refused when its version cannot be read by
    /// this program.
    pub fn open(root: String, version: Version, objects: ObjectInfo) -> (r: Result<Store, StoreError>)
        ensures
            match r {
                Ok(s) => {
                    &&& spec_store_version().spec_is_compatible(version)
                    &&& s.spec_version() == version
                    &&& !s.spec_dirty()
                    &&& s.spec_root() == root@
                    &&& s.spec_objects() == objects
                    &&& forall|k: ObjectKey| #[trigger] s.spec_info(k) == objects_info(objects, k)
                    &&& s.spec_migration_targets() == migration_targets(objects)
                },
                Err(StoreError::Version(v)) => v == version && !spec_store_version().spec_is_compatible(version),
            },
    {
        if !store_version().is_compatible(version) {
            return Err(StoreError::Version(version));
        }
        Ok(Store { version, dirty: false, root, objects })
    }

    /// The directory that migration moves the pictures of objects to: the
    /// store's directory with its last name replaced by `images`.
    pub fn image_store(&self) -> (r: String)
        ensures
            r@ == dir_prefix(self.spec_root()) + "images"@,
    {
        let root = self.root.as_str();
        let ghost p = root@;
        let mut i: usize = root.unicode_len();
        assert(p.take(i as int) =~= p);
        while i > 0 && root.get_char(i - 1) != '/'
            invariant
                0 <= i <= p.len(),
                p == root@,
                dir_prefix(p) == dir_prefix(p.take(i as int)),
            decreases i,
        {
            proof {
                assert(p.take(i as int).drop_last() =~= p.take(i - 1));
            }
            i = i - 1;
        }
        proof {
            if i > 0 {
                assert(p.take(i as int).last() == '/');
            }
        }
        let mut r = String::new();
        let mut j: usize = 0;
        while j < i
            invariant
                0 <= j <= i <= p.len(),
                p == root@,
                r@ == p.take(j as int),
            decreases i - j,
        {
            push_char(&mut r, root.get_char(j));
            proof {
                assert(p.take(j + 1) =~= p.take(j as int).push(p[j as int]));
            }
            j = j + 1;
        }
        r.append("images");
        proof {
            reveal_strlit("images");
        }
        r
    }

    /// Checks that the store is of the version that migration upgrades, and
    /// lists the stored objects whose data the caller must migrate (see
    /// `migration_targets`), moving their pictures to `image_store`, before
    /// it calls `end_migration` and saves.
    pub fn migrate(&self) -> (r: Result<Vec<ObjectRef>, MigrateError>)
        ensures
            match r {
                Ok(v) => self.spec_version() == spec_migrate_from()
                    && v@.map_values(|o: ObjectRef| o@) == self.spec_migration_targets()
                    && objects_ascending(v@.map_values(|o: ObjectRef| o@))
                    && forall|k: ObjectKey| v@.map_values(|o: ObjectRef| o@).contains(k)
                        <==> #[trigger] self.spec_info(k).in_store,
                Err(MigrateError::Version(v)) => v == self.spec_version() && v != spec_migrate_from(),
                Err(_) => false,
            },
    {
        if !self.version.same(Version { major: 1, minor: 0 }) {
            return Err(MigrateError::Version(self.version));
        }
        let mut out: Vec<ObjectRef> = Vec::new();
        let k0 = collect_stored(&self.objects.answer);
        let k1 = collect_stored(&self.objects.article);
        let k2 = collect_stored(&self.objects.collection);
        let k3 = collect_stored(&self.objects.column);
        let k4 = collect_stored(&self.objects.comment);
        let k5 = collect_stored(&self.objects.pin);
        let k6 = collect_stored(&self.objects.question);
        let k7 = collect_stored(&self.objects.user);
        proof {
            lemma_migration_order(self.objects);
            lemma_migration_targets_exact(self.objects);
        }
        push_answer_refs(&mut out, k0);
        push_article_refs(&mut out, k1);
        push_collection_refs(&mut out, k2);
        push_column_refs(&mut out, k3);
        push_comment_refs(&mut out, k4);
        push_pin_refs(&mut out, k5);
        push_question_refs(&mut out, k6);
        push_user_refs(&mut out, k7);
        assert(out@.map_values(|o: ObjectRef| o@) =~= migration_targets(self.objects));
        Ok(out)
    }

    /// Ends a migration, given how migrating each listed object went, in
    /// the order listed. At the first object that failed the migration
    /// stops: the error names that object's kind and identifier, and the
    /// store is left as it was, still of the old version, so the migration
    /// can be run again. Where every object was migrated, the store becomes
    /// of the current version (and is saved next).
    pub fn end_migration(&mut self, targets: &Vec<ObjectRef>, outcomes: &Vec<ObjectMigration>) -> (r:
        Result<(), MigrateError>)
        requires
            targets@.len() == outcomes@.len(),
        ensures
            match r {
                Ok(()) => {
                    &&& forall|j: int| 0 <= j < outcomes@.len() ==> #[trigger] outcomes@[j] == ObjectMigration::Done
                    &&& final(self).spec_version() == spec_store_version()
                    &&& final(self).spec_dirty() == old(self).spec_dirty()
                    &&& final(self).spec_root() == old(self).spec_root()
                    &&& forall|k: ObjectKey| #[trigger] final(self).spec_info(k) == old(self).spec_info(k)
                },
                Err(MigrateError::LoadObject { kind, id }) => {
                    &&& *final(self) == *old(self)
                    &&& exists|j: int|
                        0 <= j < outcomes@.len() && outcomes@[j] == ObjectMigration::LoadFailed
                            && kind@ == spec_type_name(targets@[j]@) && id@ == spec_id_text(targets@[j]@)
                            && forall|i: int| 0 <= i < j ==> #[trigger] outcomes@[i] == ObjectMigration::Done
                },
                Err(MigrateError::Image { kind, id }) => {
                    &&& *final(self) == *old(self)
                    &&& exists|j: int|
                        0 <= j < outcomes@.len() && outcomes@[j] == ObjectMigration::ImageFailed
                            && kind@ == spec_type_name(targets@[j]@) && id@ == spec_id_text(targets@[j]@)
                            && forall|i: int| 0 <= i < j ==> #[trigger] outcomes@[i] == ObjectMigration::Done
                },
                Err(MigrateError::Version(_)) => false,
            },
            call_effect(*old(self), StoreCall::Keep, *final(self)),
    {
        let mut j: usize = 0;
        while j < outcomes.len()
            invariant
                targets@.len() == outcomes@.len(),
                0 <= j <= outcomes@.len(),
                *self == *old(self),
                forall|i: int| 0 <= i < j ==> #[trigger] outcomes@[i] == ObjectMigration::Done,
            decreases outcomes@.len() - j,
        {
            match outcomes[j] {
                ObjectMigration::Done => {},
                ObjectMigration::LoadFailed => {
                    return Err(MigrateError::LoadObject { kind: targets[j].kind_name(), id: targets[j].id_text() });
                },
                ObjectMigration::ImageFailed => {
                    return Err(MigrateError::Image { kind: targets[j].kind_name(), id: targets[j].id_text() });
                },
            }
            j = j + 1;
        }
        self.finish_migration();
        Ok(())
    }

    /// Records that the objects were migrated: the store is now of the
    /// current version.
    pub fn finish_migration(&mut self)
        ensures
            final(self).spec_version() == spec_store_version(),
            final(self).spec_dirty() == old(self).spec_dirty(),
            final(self).spec_root() == old(self).spec_root(),
            forall|k: ObjectKey| #[trigger] final(self).spec_info(k) == old(self).spec_info(k),
            call_effect(*old(self), StoreCall::Keep, *final(self)),
    {
        self.version = store_version();
    }

    /// Whether records changed since the store was last saved.
    pub fn is_dirty(&self) -> (r: bool)
        ensures
            r == self.spec_dirty(),
    {
        self.dirty
    }

    /// The directory of the store.
    pub fn root(&self) -> (r: &String)
        ensures
            r@ == self.spec_root(),
    {
        &self.root
    }

    /// The format version of the store; this program reads it.
    pub fn version(&self) -> (r: Version)
        ensures
            r == self.spec_version(),
            spec_store_version().spec_is_compatible(r),
    {
        proof {
            use_type_invariant(self);
        }
        self.version
    }

    /// The object records, to be written to the store's record file.
    pub fn objects(&self) -> (r: &ObjectInfo)
        ensures
            *r == self.spec_objects(),
            forall|k: ObjectKey| #[trigger] objects_info(*r, k) == self.spec_info(k),
    {
        &self.objects
    }

    /// Records that the version and object records were written out; what
    /// was written is of a version that `open` accepts.
    pub fn save(&mut self)
        ensures
            !final(self).spec_dirty(),
            final(self).spec_version() == old(self).spec_version(),
            final(self).spec_root() == old(self).spec_root(),
            final(self).spec_objects() == old(self).spec_objects(),
            spec_store_version().spec_is_compatible(final(self).spec_version()),
            call_effect(*old(self), StoreCall::Save, *final(self)),
    {
        proof {
            use_type_invariant(&*self);
        }
        self.dirty = false;
    }

    /// What the store records of an object.
    pub fn in_store(&self, obj: &ObjectRef) -> (r: ItemInfo)
        ensures
            r == self.spec_info(obj@),
    {
        match obj {

            ObjectRef::Answer(i) => read_record(&self.objects.answer, i),
            ObjectRef::Article(i) => read_record(&self.objects.article, i),
            ObjectRef::Collection(i) => read_record(&self.objects.collection, i),
            ObjectRef::Column(i) => read_record(&self.objects.column, i),
            ObjectRef::Comment(i) => read_record(&self.objects.comment, i),
            ObjectRef::Pin(i) => read_record(&self.objects.pin, i),
            ObjectRef::Question(i) => read_record(&self.objects.question, i),
            ObjectRef::User(i) => read_record(&self.objects.user, i),
        }
    }

    /// Replaces the `ItemInfo` of an object; its container flags and the
    /// records of other objects stay.
    pub fn add_info(&mut self, obj: &ObjectRef, info: ItemInfo)
        ensures
            final(self).spec_info(obj@) == info,
            forall|k: ObjectKey, p: ContainerOption| #[trigger] final(self).spec_container_stored(k, p)
                == old(self).spec_container_stored(k, p),
            forall|k: ObjectKey| k != obj@ ==> #[trigger] final(self).spec_info(k) == old(self).spec_info(k),
            final(self).spec_dirty(),
            final(self).spec_version() == old(self).spec_version(),
            final(self).spec_root() == old(self).spec_root(),
            call_effect(*old(self), StoreCall::Write, *final(self)),
    {
        proof {
            use_type_invariant(&*self);
        }
        let mut objects = ObjectInfo::new();
        std::mem::swap(&mut objects, &mut self.objects);
        match obj {

            ObjectRef::Answer(i) => write_record(&mut objects.answer, i.key_clone(), info),
            ObjectRef::Article(i) => write_record(&mut objects.article, i.key_clone(), info),
            ObjectRef::Collection(i) => write_record(&mut objects.collection, i.key_clone(), info),
            ObjectRef::Column(i) => write_record(&mut objects.column, i.key_clone(), info),
            ObjectRef::Comment(i) => write_record(&mut objects.comment, i.key_clone(), info),
            ObjectRef::Pin(i) => write_record(&mut objects.pin, i.key_clone(), info),
            ObjectRef::Question(i) => write_record(&mut objects.question, i.key_clone(), info),
            ObjectRef::User(i) => write_record(&mut objects.user, i.key_clone(), info),
        }
        self.objects = objects;
        self.dirty = true;
        proof {
            assert forall|k: ObjectKey| k != obj@ implies #[trigger] self.spec_info(k) == old(self).spec_info(k) by {
                match k {

                    ObjectKey::Answer(x) => { if let ObjectRef::Answer(i) = obj { assert(x != i@); } },
                    ObjectKey::Article(x) => { if let ObjectRef::Article(i) = obj { assert(x != i@); } },
                    ObjectKey::Collection(x) => { if let ObjectRef::Collection(i) = obj { assert(x != i@); } },
                    ObjectKey::Column(x) => { if let ObjectRef::Column(i) = obj { assert(x != i@); } },
                    ObjectKey::Comment(x) => { if let ObjectRef::Comment(i) = obj { assert(x != i@); } },
                    ObjectKey::Pin(x) => { if let ObjectRef::Pin(i) = obj { assert(x != i@); } },
                    ObjectKey::Question(x) => { if let ObjectRef::Question(i) = obj { assert(x != i@); } },
                    ObjectKey::User(x) => { if let ObjectRef::User(i) = obj { assert(x != i@); } },
                }
            }
        }
    }

    /// The directory of an object: `root/kind/id`.
    pub fn item_path(&self, obj: &ObjectRef) -> (r: String)
        ensures
            r@ == self.spec_root() + "/"@ + spec_type_name(obj@) + "/"@ + spec_id_text(obj@),
    {
        let mut p = self.root.clone();
        p.append("/");
        p.append(obj.kind_name().as_str());
        p.append("/");
        p.append(obj.id_text().as_str());
        p
    }

    /// The directory of an object's data: `root/kind/id/info`.
    pub fn store_path(&self, obj: &ObjectRef) -> (r: String)
        ensures
            r@ == self.spec_root() + "/"@ + spec_type_name(obj@) + "/"@ + spec_id_text(obj@)
                + "/info"@,
    {
        let mut p = self.item_path(obj);
        p.append("/info");
        p
    }

    /// Records that an object's data was written to its data directory,
    /// and gives that directory back.
    pub fn add_object(&mut self, on_server: bool, obj: &ObjectRef) -> (r: String)
        ensures
            r@ == old(self).spec_root() + "/"@ + spec_type_name(obj@) + "/"@ + spec_id_text(obj@)
                + "/info"@,
            final(self).spec_info(obj@) == (ItemInfo { in_store: true, on_server }),
            forall|k: ObjectKey, p: ContainerOption| #[trigger] final(self).spec_container_stored(k, p)
                == old(self).spec_container_stored(k, p),
            forall|k: ObjectKey| k != obj@ ==> #[trigger] final(self).spec_info(k) == old(self).spec_info(k),
            final(self).spec_dirty(),
            final(self).spec_version() == old(self).spec_version(),
            final(self).spec_root() == old(self).spec_root(),
            call_effect(*old(self), StoreCall::Write, *final(self)),
    {
        let path = self.store_path(obj);
        self.add_info(obj, ItemInfo { in_store: true, on_server });
        path
    }

    /// Whether the container `o` of an object is stored.
    pub fn container_in_store(&self, owner: &ObjectRef, o: ContainerOption) -> (r: bool)
        ensures
            r == self.spec_container_stored(owner@, o),
    {
        match owner {
            ObjectRef::Answer(i) => read_flag(&self.objects.answer, i, o),
            ObjectRef::Article(i) => read_flag(&self.objects.article, i, o),
            ObjectRef::Collection(i) => read_flag(&self.objects.collection, i, o),
            ObjectRef::Column(i) => read_flag(&self.objects.column, i, o),
            ObjectRef::Comment(i) => read_flag(&self.objects.comment, i, o),
            ObjectRef::Pin(i) => read_flag(&self.objects.pin, i, o),
            ObjectRef::Question(i) => read_flag(&self.objects.question, i, o),
            ObjectRef::User(i) => read_flag(&self.objects.user, i, o),
        }
    }

    /// Records that the container `o` of an object is stored, where objects
    /// of its kind have such a container; other records stay.
    pub fn add_container_info(&mut self, owner: &ObjectRef, o: ContainerOption)
        ensures
            final(self).spec_container_stored(owner@, o) == kind_has_container(owner@, o),
            forall|k: ObjectKey, p: ContainerOption|
                !(k == owner@ && p == o) ==> #[trigger] final(self).spec_container_stored(k, p)
                    == old(self).spec_container_stored(k, p),
            forall|k: ObjectKey| #[trigger] final(self).spec_info(k) == old(self).spec_info(k),
            final(self).spec_dirty(),
            final(self).spec_version() == old(self).spec_version(),
            final(self).spec_root() == old(self).spec_root(),
            call_effect(*old(self), StoreCall::Write, *final(self)),
    {
        proof {
            use_type_invariant(&*self);
        }
        let mut objects = ObjectInfo::new();
        std::mem::swap(&mut objects, &mut self.objects);
        match owner {
            ObjectRef::Answer(i) => write_flag(&mut objects.answer, i.key_clone(), o),
            ObjectRef::Article(i) => write_flag(&mut objects.article, i.key_clone(), o),
            ObjectRef::Collection(i) => write_flag(&mut objects.collection, i.key_clone(), o),
            ObjectRef::Column(i) => write_flag(&mut objects.column, i.key_clone(), o),
            ObjectRef::Comment(i) => write_flag(&mut objects.comment, i.key_clone(), o),
            ObjectRef::Pin(i) => write_flag(&mut objects.pin, i.key_clone(), o),
            ObjectRef::Question(i) => write_flag(&mut objects.question, i.key_clone(), o),
            ObjectRef::User(i) => write_flag(&mut objects.user, i.key_clone(), o),
        }
        self.objects = objects;
        self.dirty = true;
        proof {
            assert forall|k: ObjectKey, p: ContainerOption|
                !(k == owner@ && p == o) implies #[trigger] self.spec_container_stored(k, p)
                    == old(self).spec_container_stored(k, p) by {
                match k {
                    ObjectKey::Answer(x) => {
                        if let ObjectRef::Answer(i) = owner {
                            if x == i@ {
                                assert(p != o);
                            }
                        }
                    },
                    ObjectKey::Article(x) => {
                        if let ObjectRef::Article(i) = owner {
                            if x == i@ {
                                assert(p != o);
                            }
                        }
                    },
                    ObjectKey::Collection(x) => {
                        if let ObjectRef::Collection(i) = owner {
                            if x == i@ {
                                assert(p != o);
                            }
                        }
                    },
                    ObjectKey::Column(x) => {
                        if let ObjectRef::Column(i) = owner {
                            if x == i@ {
                                assert(p != o);
                            }
                        }
                    },
                    ObjectKey::Comment(x) => {
                        if let ObjectRef::Comment(i) = owner {
                            if x == i@ {
                                assert(p != o);
                            }
                        }
                    },
                    ObjectKey::Pin(x) => {
                        if let ObjectRef::Pin(i) = owner {
                            if x == i@ {
                                assert(p != o);
                            }
                        }
                    },
                    ObjectKey::Question(x) => {
                        if let ObjectRef::Question(i) = owner {
                            if x == i@ {
                                assert(p != o);
                            }
                        }
                    },
                    ObjectKey::User(x) => {
                        if let ObjectRef::User(i) = owner {
                            if x == i@ {
                                assert(p != o);
                            }
                        }
                    },
                }
            }
            assert forall|k: ObjectKey| #[trigger] self.spec_info(k) == old(self).spec_info(k) by {
                match k {
                    ObjectKey::Answer(x) => {
                        if let ObjectRef::Answer(i) = owner {
                            if x == i@ {
                            }
                        }
                    },
                    ObjectKey::Article(x) => {
                        if let ObjectRef::Article(i) = owner {
                            if x == i@ {
                            }
                        }
                    },
                    ObjectKey::Collection(x) => {
                        if let ObjectRef::Collection(i) = owner {
                            if x == i@ {
                            }
                        }
                    },
                    ObjectKey::Column(x) => {
                        if let ObjectRef::Column(i) = owner {
                            if x == i@ {
                            }
                        }
                    },
                    ObjectKey::Comment(x) => {
                        if let ObjectRef::Comment(i) = owner {
                            if x == i@ {
                            }
                        }
                    },
                    ObjectKey::Pin(x) => {
                        if let ObjectRef::Pin(i) = owner {
                            if x == i@ {
                            }
                        }
                    },
                    ObjectKey::Question(x) => {
                        if let ObjectRef::Question(i) = owner {
                            if x == i@ {
                            }
                        }
                    },
                    ObjectKey::User(x) => {
                        if let ObjectRef::User(i) = owner {
                            if x == i@ {
                            }
                        }
                    },
                }
            }
        }
    }

    /// Where an object is kept, and where its link under `dest` goes.
    pub fn link_info(&self, obj: &ObjectRef, dest: &str) -> (r: LinkInfo)
        ensures
            r.source@ == self.spec_root() + "/"@ + spec_type_name(obj@) + "/"@ + spec_id_text(obj@),
            r.link@ == dest@ + "/"@ + spec_type_name(obj@) + "/"@ + spec_id_text(obj@),
    {
        let source = self.item_path(obj);
        let mut link = dest.to_owned();
        link.append("/");
        link.append(obj.kind_name().as_str());
        link.append("/");
        link.append(obj.id_text().as_str());
        LinkInfo { source, link }
    }
}

/// Where a stored object is, and where a link to it goes.
#[derive(Debug, Clone)]
pub struct LinkInfo {
    pub source: String,
    pub link: String,
}


/// Identifiers of objects of one kind.
pub trait StoreKey: MapKey {
    /// The object an identifier (by its view) stands for.
    spec fn spec_object(k: Self::V) -> ObjectKey;

    /// The object the identifier stands for.
    fn object_ref(&self) -> (r: ObjectRef)
        ensures
            r@ == Self::spec_object(self@),
    ;

    /// The identifier of an object of this kind; `None` for other kinds.
    fn of_object(obj: &ObjectRef) -> (r: Option<Self>)
        ensures
            match r {
                Some(k) => Self::spec_object(k@) == obj@,
                None => forall|kv: Self::V| Self::spec_object(kv) != obj@,
            },
    ;

    /// Different identifiers stand for different objects.
    proof fn lemma_object_injective(a: Self::V, b: Self::V)
        ensures
            Self::spec_object(a) == Self::spec_object(b) ==> a == b,
    ;
}

impl StoreKey for AnswerId {
    open spec fn spec_object(k: u64) -> ObjectKey {
        ObjectKey::Answer(k)
    }

    fn object_ref(&self) -> (r: ObjectRef) {
        ObjectRef::Answer(*self)
    }

    fn of_object(obj: &ObjectRef) -> (r: Option<Self>) {
        match obj {
            ObjectRef::Answer(i) => Some(i.key_clone()),
            _ => None,
        }
    }

    proof fn lemma_object_injective(a: Self::V, b: Self::V) {
    }
}

impl StoreKey for ArticleId {
    open spec fn spec_object(k: u64) -> ObjectKey {
        ObjectKey::Article(k)
    }

    fn object_ref(&self) -> (r: ObjectRef) {
        ObjectRef::Article(*self)
    }

    fn of_object(obj: &ObjectRef) -> (r: Option<Self>) {
        match obj {
            ObjectRef::Article(i) => Some(i.key_clone()),
            _ => None,
        }
    }

    proof fn lemma_object_injective(a: Self::V, b: Self::V) {
    }
}

impl StoreKey for CollectionId {
    open spec fn spec_object(k: u64) -> ObjectKey {
        ObjectKey::Collection(k)
    }

    fn object_ref(&self) -> (r: ObjectRef) {
        ObjectRef::Collection(*self)
    }

    fn of_object(obj: &ObjectRef) -> (r: Option<Self>) {
        match obj {
            ObjectRef::Collection(i) => Some(i.key_clone()),
            _ => None,
        }
    }

    proof fn lemma_object_injective(a: Self::V, b: Self::V) {
    }
}

impl StoreKey for ColumnId {
    open spec fn spec_object(k: Seq<char>) -> ObjectKey {
        ObjectKey::Column(k)
    }

    fn object_ref(&self) -> (r: ObjectRef) {
        ObjectRef::Column(self.key_clone())
    }

    fn of_object(obj: &ObjectRef) -> (r: Option<Self>) {
        match obj {
            ObjectRef::Column(i) => Some(i.key_clone()),
            _ => None,
        }
    }

    proof fn lemma_object_injective(a: Self::V, b: Self::V) {
    }
}

impl StoreKey for CommentId {
    open spec fn spec_object(k: u64) -> ObjectKey {
        ObjectKey::Comment(k)
    }

    fn object_ref(&self) -> (r: ObjectRef) {
        ObjectRef::Comment(*self)
    }

    fn of_object(obj: &ObjectRef) -> (r: Option<Self>) {
        match obj {
            ObjectRef::Comment(i) => Some(i.key_clone()),
            _ => None,
        }
    }

    proof fn lemma_object_injective(a: Self::V, b: Self::V) {
    }
}

impl StoreKey for PinId {
    open spec fn spec_object(k: u64) -> ObjectKey {
        ObjectKey::Pin(k)
    }

    fn object_ref(&self) -> (r: ObjectRef) {
        ObjectRef::Pin(*self)
    }

    fn of_object(obj: &ObjectRef) -> (r: Option<Self>) {
        match obj {
            ObjectRef::Pin(i) => Some(i.key_clone()),
            _ => None,
        }
    }

    proof fn lemma_object_injective(a: Self::V, b: Self::V) {
    }
}

impl StoreKey for QuestionId {
    open spec fn spec_object(k: u64) -> ObjectKey {
        ObjectKey::Question(k)
    }

    fn object_ref(&self) -> (r: ObjectRef) {
        ObjectRef::Question(*self)
    }

    fn of_object(obj: &ObjectRef) -> (r: Option<Self>) {
        match obj {
            ObjectRef::Question(i) => Some(i.key_clone()),
            _ => None,
        }
    }

    proof fn lemma_object_injective(a: Self::V, b: Self::V) {
    }
}

impl StoreKey for UserId {
    open spec fn spec_object(k: Seq<u8>) -> ObjectKey {
        ObjectKey::User(k)
    }

    fn object_ref(&self) -> (r: ObjectRef) {
        ObjectRef::User(*self)
    }

    fn of_object(obj: &ObjectRef) -> (r: Option<Self>) {
        match obj {
            ObjectRef::User(i) => Some(i.key_clone()),
            _ => None,
        }
    }

    proof fn lemma_object_injective(a: Self::V, b: Self::V) {
    }
}

/// Records the same `info` for every object of a set of identifiers.
pub fn mark_all<K: StoreKey>(set: &KeySet<K>, info: ItemInfo, store: &mut Store)
    ensures
        forall|k: K::V| #[trigger] set@.contains(k) ==> final(store).spec_info(K::spec_object(k)) == info,
        forall|o: ObjectKey|
            (forall|k: K::V| #[trigger] set@.contains(k) ==> K::spec_object(k) != o)
                ==> #[trigger] final(store).spec_info(o) == old(store).spec_info(o),
        final(store).spec_version() == old(store).spec_version(),
        final(store).spec_root() == old(store).spec_root(),
        final(store).spec_dirty() == (old(store).spec_dirty() || !set@.is_empty()),
{
    let keys = set.keys();
    let ghost v = keys@.map_values(|k: K| k@);
    let mut i: usize = 0;
    while i < keys.len()
        invariant
            0 <= i <= keys@.len(),
            v == keys@.map_values(|k: K| k@),
            forall|j: int| 0 <= j < i ==> #[trigger] store.spec_info(K::spec_object(v[j])) == info,
            forall|o: ObjectKey|
                (forall|j: int| 0 <= j < i ==> #[trigger] K::spec_object(v[j]) != o) ==> #[trigger] store.spec_info(o)
                    == old(store).spec_info(o),
            store.spec_version() == old(store).spec_version(),
            store.spec_root() == old(store).spec_root(),
            store.spec_dirty() == (old(store).spec_dirty() || i > 0),
        decreases keys@.len() - i,
    {
        let o = keys[i].object_ref();
        store.add_info(&o, info);
        proof {
            assert(o@ == K::spec_object(v[i as int]));
        }
        i = i + 1;
    }
    proof {
        assert forall|k: K::V| #[trigger] set@.contains(k) implies store.spec_info(K::spec_object(k)) == info by {
            assert(v.to_set().contains(k));
            let j = choose|j: int| 0 <= j < v.len() && v[j] == k;
        }
        assert forall|o: ObjectKey|
            (forall|k: K::V| #[trigger] set@.contains(k) ==> K::spec_object(k) != o) implies #[trigger] store.spec_info(o)
                == old(store).spec_info(o) by {
            assert forall|j: int| 0 <= j < keys@.len() implies #[trigger] K::spec_object(v[j]) != o by {
                assert(v.to_set().contains(v[j]));
            }
        }
        if keys@.len() == 0 {
            assert(v.to_set() =~= Set::<K::V>::empty());
        } else {
            assert(v.to_set().contains(v[0]));
        }
    }
}

/// A store opened again from the format version, the root and the object
/// records that another store gives to be written out holds what that store
/// holds: the same record of every object, the same containers, the same
/// objects to migrate.
pub proof fn lemma_reopen_same_records(saved: Store, opened: Store)
    requires
        opened.spec_version() == saved.spec_version(),
        opened.spec_root() == saved.spec_root(),
        opened.spec_objects() == saved.spec_objects(),
    ensures
        forall|k: ObjectKey| #[trigger] opened.spec_info(k) == saved.spec_info(k),
        forall|k: ObjectKey, o: ContainerOption| #[trigger] opened.spec_container_stored(k, o)
            == saved.spec_container_stored(k, o),
        opened.spec_migration_targets() == saved.spec_migration_targets(),
{
}

} // verus!
