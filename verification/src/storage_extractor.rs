//! Storage schema and storage writes of a contract crate.
//!
//! A storage write is a call of the form
//! `<...>.persistent().set(&key, ...)` (or `instance()`, `temporary()`),
//! found among the statements of a function, inside nested blocks, `if`
//! branches and `match` arms. Its key is reported as the text of the key
//! expression's tokens, not resolved to a name.
use vstd::prelude::*;
use crate::rust_parser::{files_storage_keys, push_file_storage_keys};
use crate::syn_bridge::{all_parse, first_unparsed, parse_source, parsed_file, parsed_files};
use crate::syntax::{BlockRepr, ExprRepr, FnRepr, ItemRepr, SourceFile, SourceText, StmtRepr};
use crate::text::str_eq;
use crate::types::StorageKey;

verus! {

/// Why storage extraction failed.
#[derive(Debug, Clone, PartialEq, Eq)]
pub enum StorageExtractError {
    /// A source file could not be read.
    Io(String),
    /// A source file is not valid Rust.
    Parse { path: String, message: String },
    /// The crate's directory could not be walked.
    Walk(String),
}

/// Storage access type detected in the source.
#[derive(Debug, Clone, Copy, PartialEq, Eq, Structural)]
pub enum StorageAccess {
    Persistent,
    Instance,
    Temporary,
}

/// A detected storage write call (e.g. `env.storage().persistent().set(&key, &value)`).
#[derive(Debug, Clone, PartialEq, Eq)]
pub struct StorageWrite {
    pub key_expr: String,
    pub access: StorageAccess,
}

/// Mathematical model of a [`StorageWrite`].
pub struct StorageWriteView {
    pub key_expr: Seq<char>,
    pub access: StorageAccess,
}

impl DeepView for StorageWrite {
    type V = StorageWriteView;

    open spec fn deep_view(&self) -> StorageWriteView {
        StorageWriteView { key_expr: self.key_expr@, access: self.access }
    }
}

impl View for StorageWrite {
    type V = StorageWriteView;

    open spec fn view(&self) -> StorageWriteView {
        self.deep_view()
    }
}

/// The storage that a method of this name selects.
pub open spec fn access_of(m: Seq<char>) -> Option<StorageAccess> {
    if m == "persistent"@ {
        Some(StorageAccess::Persistent)
    } else if m == "instance"@ {
        Some(StorageAccess::Instance)
    } else if m == "temporary"@ {
        Some(StorageAccess::Temporary)
    } else {
        None
    }
}

/// The write that a method call is: a `set` with at least one argument,
/// called on the result of `persistent()`, `instance()` or `temporary()`.
pub open spec fn call_writes(
    method: Seq<char>,
    receiver_method: Option<Seq<char>>,
    first_arg: Option<Seq<char>>,
) -> Seq<StorageWriteView> {
    if method == "set"@ {
        match receiver_method {
            Some(r) => match access_of(r) {
                Some(access) => match first_arg {
                    Some(k) => seq![StorageWriteView { key_expr: k, access }],
                    None => Seq::empty(),
                },
                None => Seq::empty(),
            },
            None => Seq::empty(),
        }
    } else {
        Seq::empty()
    }
}

pub open spec fn expr_writes(e: ExprRepr) -> Seq<StorageWriteView>
    decreases e,
{
    match e {
        ExprRepr::MethodCall { method, receiver_method, first_arg } => call_writes(
            method@,
            match receiver_method {
                Some(r) => Some(r@),
                None => None,
            },
            match first_arg {
                Some(k) => Some(k@),
                None => None,
            },
        ),
        ExprRepr::Block(b) => stmts_writes(b.stmts@),
        ExprRepr::If { then_branch, else_branch } => stmts_writes(then_branch.stmts@) + match else_branch {
            Some(x) => expr_writes(*x),
            None => Seq::empty(),
        },
        ExprRepr::Match { arms } => exprs_writes(arms@),
        ExprRepr::Other => Seq::empty(),
    }
}

pub open spec fn exprs_writes(es: Seq<ExprRepr>) -> Seq<StorageWriteView>
    decreases es,
{
    if es.len() == 0 {
        Seq::empty()
    } else {
        exprs_writes(es.drop_last()) + expr_writes(es.last())
    }
}

pub open spec fn stmt_writes(s: StmtRepr) -> Seq<StorageWriteView>
    decreases s,
{
    match s {
        StmtRepr::Expr(e) => expr_writes(e),
        StmtRepr::Local(Some(e)) => expr_writes(e),
        _ => Seq::empty(),
    }
}

pub open spec fn stmts_writes(ss: Seq<StmtRepr>) -> Seq<StorageWriteView>
    decreases ss,
{
    if ss.len() == 0 {
        Seq::empty()
    } else {
        stmts_writes(ss.drop_last()) + stmt_writes(ss.last())
    }
}

/// The writes in the bodies of functions, public or not.
pub open spec fn fns_writes(fs: Seq<FnRepr>) -> Seq<StorageWriteView>
    decreases fs.len(),
{
    if fs.len() == 0 {
        Seq::empty()
    } else {
        fns_writes(fs.drop_last()) + stmts_writes(fs.last().body.stmts@)
    }
}

pub open spec fn item_writes(it: ItemRepr) -> Seq<StorageWriteView> {
    match it {
        ItemRepr::Fn(f) => stmts_writes(f.body.stmts@),
        ItemRepr::Impl { methods } => fns_writes(methods@),
        _ => Seq::empty(),
    }
}

pub open spec fn items_writes(items: Seq<ItemRepr>) -> Seq<StorageWriteView>
    decreases items.len(),
{
    if items.len() == 0 {
        Seq::empty()
    } else {
        items_writes(items.drop_last()) + item_writes(items.last())
    }
}

pub open spec fn files_writes(files: Seq<SourceFile>) -> Seq<StorageWriteView>
    decreases files.len(),
{
    if files.len() == 0 {
        Seq::empty()
    } else {
        files_writes(files.drop_last()) + items_writes(files.last().items@)
    }
}

/// Appends the write that a method call is, if it is one.
pub fn check_storage_method_call(
    method: &String,
    receiver_method: &Option<String>,
    first_arg: &Option<String>,
    writes: &mut Vec<StorageWrite>,
)
    ensures
        final(writes).deep_view() == old(writes).deep_view() + call_writes(
            method@,
            match receiver_method {
                Some(r) => Some(r@),
                None => None,
            },
            match first_arg {
                Some(k) => Some(k@),
                None => None,
            },
        ),
{
    let ghost before = writes.deep_view();
    if str_eq(method.as_str(), "set") {
        match receiver_method {
            Some(r) => {
                let access = if str_eq(r.as_str(), "persistent") {
                    Some(StorageAccess::Persistent)
                } else if str_eq(r.as_str(), "instance") {
                    Some(StorageAccess::Instance)
                } else if str_eq(r.as_str(), "temporary") {
                    Some(StorageAccess::Temporary)
                } else {
                    None
                };
                match access {
                    Some(access) => match first_arg {
                        Some(k) => {
                            writes.push(StorageWrite { key_expr: k.clone(), access });
                        },
                        None => {},
                    },
                    None => {},
                }
            },
            None => {},
        }
    }
    assert(writes.deep_view() =~= before + call_writes(
        method@,
        match receiver_method {
            Some(r) => Some(r@),
            None => None,
        },
        match first_arg {
            Some(k) => Some(k@),
            None => None,
        },
    ));
}

/// Appends the writes among a block's statements.
#[verifier::loop_isolation(false)]
pub fn find_storage_writes_in_block(block: &BlockRepr, writes: &mut Vec<StorageWrite>)
    ensures
        final(writes).deep_view() == old(writes).deep_view() + stmts_writes(block.stmts@),
    decreases block,
{
    let stmts = &block.stmts;
    let ghost start = writes.deep_view();
    let mut i: usize = 0;
    while i < stmts.len()
        invariant
            i <= stmts.len(),
            writes.deep_view() == start + stmts_writes(stmts@.take(i as int)),
        decreases stmts.len() - i,
    {
        assert(stmts@.take(i + 1).drop_last() =~= stmts@.take(i as int));
        assert(stmts@.take(i + 1).last() == stmts@[i as int]);
        let ghost before = writes.deep_view();
        let ghost s = stmts@[i as int];
        match &stmts[i] {
            StmtRepr::Expr(e) => {
                find_storage_writes_in_expr(e, writes);
            },
            StmtRepr::Local(Some(e)) => {
                find_storage_writes_in_expr(e, writes);
            },
            _ => {},
        }
        assert(writes.deep_view() =~= before + stmt_writes(s));
        assert(writes.deep_view() =~= start + stmts_writes(stmts@.take(i + 1)));
        i = i + 1;
    }
    assert(stmts@.take(stmts.len() as int) =~= stmts@);
}

/// Appends the writes in an expression.
#[verifier::loop_isolation(false)]
pub fn find_storage_writes_in_expr(expr: &ExprRepr, writes: &mut Vec<StorageWrite>)
    ensures
        final(writes).deep_view() == old(writes).deep_view() + expr_writes(*expr),
    decreases expr,
{
    let ghost start = writes.deep_view();
    match expr {
        ExprRepr::MethodCall { method, receiver_method, first_arg } => {
            check_storage_method_call(method, receiver_method, first_arg, writes);
        },
        ExprRepr::Block(b) => {
            find_storage_writes_in_block(b, writes);
        },
        ExprRepr::If { then_branch, else_branch } => {
            find_storage_writes_in_block(then_branch, writes);
            match else_branch {
                Some(x) => {
                    find_storage_writes_in_expr(x, writes);
                },
                None => {},
            }
            assert(writes.deep_view() =~= start + expr_writes(*expr));
        },
        ExprRepr::Match { arms } => {
            let mut i: usize = 0;
            while i < arms.len()
                invariant
                    i <= arms.len(),
                    writes.deep_view() == start + exprs_writes(arms@.take(i as int)),
                decreases arms.len() - i,
            {
                assert(arms@.take(i + 1).drop_last() =~= arms@.take(i as int));
                assert(arms@.take(i + 1).last() == arms@[i as int]);
                find_storage_writes_in_expr(&arms[i], writes);
                assert(writes.deep_view() =~= start + exprs_writes(arms@.take(i + 1)));
                i = i + 1;
            }
            assert(arms@.take(arms.len() as int) =~= arms@);
        },
        ExprRepr::Other => {
            assert(writes.deep_view() =~= start + expr_writes(*expr));
        },
    }
}

/// Appends the writes in all functions of a parsed file, including the
/// methods of impl blocks, public or not.
pub fn find_storage_writes_in_file(file: &SourceFile, writes: &mut Vec<StorageWrite>)
    ensures
        final(writes).deep_view() == old(writes).deep_view() + items_writes(file.items@),
{
    let ghost start = writes.deep_view();
    let items = &file.items;
    let mut i: usize = 0;
    while i < items.len()
        invariant
            i <= items.len(),
            writes.deep_view() == start + items_writes(items@.take(i as int)),
        decreases items.len() - i,
    {
        assert(items@.take(i + 1).drop_last() =~= items@.take(i as int));
        assert(items@.take(i + 1).last() == items@[i as int]);
        let ghost before = writes.deep_view();
        match &items[i] {
            ItemRepr::Fn(f) => {
                find_storage_writes_in_block(&f.body, writes);
            },
            ItemRepr::Impl { methods } => {
                let mut j: usize = 0;
                while j < methods.len()
                    invariant
                        j <= methods.len(),
                        writes.deep_view() == before + fns_writes(methods@.take(j as int)),
                    decreases methods.len() - j,
                {
                    assert(methods@.take(j + 1).drop_last() =~= methods@.take(j as int));
                    assert(methods@.take(j + 1).last() == methods@[j as int]);
                    find_storage_writes_in_block(&methods[j].body, writes);
                    assert(writes.deep_view() =~= before + fns_writes(methods@.take(j + 1)));
                    j = j + 1;
                }
                assert(methods@.take(methods.len() as int) =~= methods@);
            },
            _ => {},
        }
        assert(writes.deep_view() =~= start + items_writes(items@.take(i + 1)));
        i = i + 1;
    }
    assert(items@.take(items.len() as int) =~= items@);
}

/// Extracts the storage schema (the `#[contracttype]` definitions) of a
/// crate's sources.
///
/// On success the result is what the parsed files give, one file per
/// source, in order; a source that does not parse fails the whole with its
/// path.
pub fn extract_storage_schema(sources: &Vec<SourceText>) -> (r: Result<Vec<StorageKey>, StorageExtractError>)
    ensures
        r is Ok <==> all_parse(sources@),
        match r {
            Ok(keys) => keys.deep_view() == files_storage_keys(parsed_files(sources@)),
            Err(StorageExtractError::Parse { path, .. }) => exists|i: int|
                first_unparsed(sources@, i) && path@ == sources@[i].path@,
            Err(_) => false,
        },
{
    let mut keys: Vec<StorageKey> = Vec::new();
    let ghost mut files: Seq<SourceFile> = Seq::empty();
    let mut i: usize = 0;
    assert(keys.deep_view() =~= files_storage_keys(files));
    while i < sources.len()
        invariant
            i <= sources.len(),
            files.len() == i,
            forall|k: int|
                0 <= k < i ==> (#[trigger] parsed_file(sources@[k].content@)) is Some && files[k]
                    == parsed_file(sources@[k].content@)->0,
            keys.deep_view() == files_storage_keys(files),
        decreases sources.len() - i,
    {
        match parse_source(sources[i].content.as_str()) {
            Err(message) => {
                assert(first_unparsed(sources@, i as int));
                return Err(StorageExtractError::Parse { path: sources[i].path.clone(), message });
            },
            Ok(file) => {
                push_file_storage_keys(&file, &mut keys);
                proof {
                    assert(files.push(file).drop_last() =~= files);
                    files = files.push(file);
                }
            },
        }
        i = i + 1;
    }
    assert(files =~= parsed_files(sources@));
    Ok(keys)
}

/// Extracts the storage write call sites of a crate's sources.
///
/// On success the result is what the parsed files give, one file per
/// source, in order; a source that does not parse fails the whole with its
/// path.
pub fn extract_storage_writes(sources: &Vec<SourceText>) -> (r: Result<Vec<StorageWrite>, StorageExtractError>)
    ensures
        r is Ok <==> all_parse(sources@),
        match r {
            Ok(writes) => writes.deep_view() == files_writes(parsed_files(sources@)),
            Err(StorageExtractError::Parse { path, .. }) => exists|i: int|
                first_unparsed(sources@, i) && path@ == sources@[i].path@,
            Err(_) => false,
        },
{
    let mut writes: Vec<StorageWrite> = Vec::new();
    let ghost mut files: Seq<SourceFile> = Seq::empty();
    let mut i: usize = 0;
    assert(writes.deep_view() =~= files_writes(files));
    while i < sources.len()
        invariant
            i <= sources.len(),
            files.len() == i,
            forall|k: int|
                0 <= k < i ==> (#[trigger] parsed_file(sources@[k].content@)) is Some && files[k]
                    == parsed_file(sources@[k].content@)->0,
            writes.deep_view() == files_writes(files),
        decreases sources.len() - i,
    {
        match parse_source(sources[i].content.as_str()) {
            Err(message) => {
                assert(first_unparsed(sources@, i as int));
                return Err(StorageExtractError::Parse { path: sources[i].path.clone(), message });
            },
            Ok(file) => {
                find_storage_writes_in_file(&file, &mut writes);
                proof {
                    assert(files.push(file).drop_last() =~= files);
                    files = files.push(file);
                }
            },
        }
        i = i + 1;
    }
    assert(files =~= parsed_files(sources@));
    Ok(writes)
}

// ---------------------------------------------------------------------------
// Laws
// ---------------------------------------------------------------------------

/// The writes of some statements are those of a first part followed by
/// those of the rest; one statement gives its own writes.
pub proof fn lemma_stmts_writes_split(a: Seq<StmtRepr>, b: Seq<StmtRepr>)
    ensures
        stmts_writes(a + b) == stmts_writes(a) + stmts_writes(b),
        a.len() == 1 ==> stmts_writes(a) == stmt_writes(a[0]),
    decreases b.len(),
{
    if a.len() == 1 {
        assert(a.drop_last() =~= Seq::<StmtRepr>::empty());
        assert(stmts_writes(a.drop_last()) == Seq::<StorageWriteView>::empty());
        assert(a.last() == a[0]);
        assert(Seq::<StorageWriteView>::empty() + stmt_writes(a[0]) =~= stmt_writes(a[0]));
    }
    if b.len() == 0 {
        assert(a + b =~= a);
        assert(stmts_writes(a) + stmts_writes(b) =~= stmts_writes(a));
    } else {
        lemma_stmts_writes_split(a, b.drop_last());
        assert((a + b).drop_last() =~= a + b.drop_last());
        assert((a + b).last() == b.last());
        assert(stmts_writes(a) + stmts_writes(b) =~= stmts_writes(a) + stmts_writes(b.drop_last())
            + stmt_writes(b.last()));
    }
}

/// The writes of some expressions (the arms of a `match`) are those of a
/// first part followed by those of the rest; one expression gives its own.
pub proof fn lemma_exprs_writes_split(a: Seq<ExprRepr>, b: Seq<ExprRepr>)
    ensures
        exprs_writes(a + b) == exprs_writes(a) + exprs_writes(b),
        a.len() == 1 ==> exprs_writes(a) == expr_writes(a[0]),
    decreases b.len(),
{
    if a.len() == 1 {
        assert(a.drop_last() =~= Seq::<ExprRepr>::empty());
        assert(exprs_writes(a.drop_last()) == Seq::<StorageWriteView>::empty());
        assert(a.last() == a[0]);
        assert(Seq::<StorageWriteView>::empty() + expr_writes(a[0]) =~= expr_writes(a[0]));
    }
    if b.len() == 0 {
        assert(a + b =~= a);
        assert(exprs_writes(a) + exprs_writes(b) =~= exprs_writes(a));
    } else {
        lemma_exprs_writes_split(a, b.drop_last());
        assert((a + b).drop_last() =~= a + b.drop_last());
        assert((a + b).last() == b.last());
        assert(exprs_writes(a) + exprs_writes(b) =~= exprs_writes(a) + exprs_writes(b.drop_last())
            + expr_writes(b.last()));
    }
}

/// Which method calls are writes: `set` with a first argument, called on
/// `persistent()`, `instance()` or `temporary()`, which select that
/// storage; the write carries the argument's text. Where writes are found:
/// a block gives those of its statements; an `if` those of its
/// then-branch, then those of its `else`; a `match` those of its arms in
/// order; an expression statement or a `let` initializer those of its
/// expression; nothing else gives any.
pub proof fn lemma_writes_found_anywhere(e: ExprRepr, s: StmtRepr)
    ensures
        e matches ExprRepr::MethodCall { method, receiver_method, first_arg } ==> expr_writes(e) == if method@
            == "set"@ && first_arg is Some && receiver_method is Some && (receiver_method->0@
            == "persistent"@ || receiver_method->0@ == "instance"@ || receiver_method->0@
            == "temporary"@) {
            seq![
                StorageWriteView {
                    key_expr: first_arg->0@,
                    access: if receiver_method->0@ == "persistent"@ {
                        StorageAccess::Persistent
                    } else if receiver_method->0@ == "instance"@ {
                        StorageAccess::Instance
                    } else {
                        StorageAccess::Temporary
                    },
                },
            ]
        } else {
            Seq::<StorageWriteView>::empty()
        },
        e matches ExprRepr::Block(b) ==> expr_writes(e) == stmts_writes(b.stmts@),
        e matches ExprRepr::If { then_branch, else_branch } ==> expr_writes(e) == stmts_writes(
            then_branch.stmts@,
        ) + match else_branch {
            Some(x) => expr_writes(*x),
            None => Seq::<StorageWriteView>::empty(),
        },
        e matches ExprRepr::Match { arms } ==> expr_writes(e) == exprs_writes(arms@),
        e is Other ==> expr_writes(e) == Seq::<StorageWriteView>::empty(),
        s matches StmtRepr::Expr(x) ==> stmt_writes(s) == expr_writes(x),
        s matches StmtRepr::Local(Some(x)) ==> stmt_writes(s) == expr_writes(x),
        s matches StmtRepr::Local(None) ==> stmt_writes(s) == Seq::<StorageWriteView>::empty(),
        s is Other ==> stmt_writes(s) == Seq::<StorageWriteView>::empty(),
{
    reveal_strlit("persistent");
    reveal_strlit("instance");
    reveal_strlit("temporary");
}

/// The writes of some items are those of a first part followed by those of
/// the rest. A function item gives the writes of its body, public or not;
/// an impl block those of all its methods, in order; other items none.
pub proof fn lemma_items_writes_split(a: Seq<ItemRepr>, b: Seq<ItemRepr>)
    ensures
        items_writes(a + b) == items_writes(a) + items_writes(b),
        a.len() == 1 ==> items_writes(a) == item_writes(a[0]),
        a.len() == 1 ==> (a[0] matches ItemRepr::Fn(f) ==> items_writes(a) == stmts_writes(f.body.stmts@)),
    decreases b.len(),
{
    if a.len() == 1 {
        assert(a.drop_last() =~= Seq::<ItemRepr>::empty());
        assert(items_writes(a.drop_last()) == Seq::<StorageWriteView>::empty());
        assert(a.last() == a[0]);
        assert(Seq::<StorageWriteView>::empty() + item_writes(a[0]) =~= item_writes(a[0]));
    }
    if b.len() == 0 {
        assert(a + b =~= a);
        assert(items_writes(a) + items_writes(b) =~= items_writes(a));
    } else {
        lemma_items_writes_split(a, b.drop_last());
        assert((a + b).drop_last() =~= a + b.drop_last());
        assert((a + b).last() == b.last());
        assert(items_writes(a) + items_writes(b) =~= items_writes(a) + items_writes(b.drop_last())
            + item_writes(b.last()));
    }
}

/// The writes of the methods of an impl block are those of a first part
/// followed by those of the rest; one method gives the writes of its body,
/// public or not.
pub proof fn lemma_fns_writes_split(a: Seq<FnRepr>, b: Seq<FnRepr>)
    ensures
        fns_writes(a + b) == fns_writes(a) + fns_writes(b),
        a.len() == 1 ==> fns_writes(a) == stmts_writes(a[0].body.stmts@),
    decreases b.len(),
{
    if a.len() == 1 {
        assert(a.drop_last() =~= Seq::<FnRepr>::empty());
        assert(fns_writes(a.drop_last()) == Seq::<StorageWriteView>::empty());
        assert(a.last() == a[0]);
        assert(Seq::<StorageWriteView>::empty() + stmts_writes(a[0].body.stmts@) =~= stmts_writes(
            a[0].body.stmts@,
        ));
    }
    if b.len() == 0 {
        assert(a + b =~= a);
        assert(fns_writes(a) + fns_writes(b) =~= fns_writes(a));
    } else {
        lemma_fns_writes_split(a, b.drop_last());
        assert((a + b).drop_last() =~= a + b.drop_last());
        assert((a + b).last() == b.last());
        assert(fns_writes(a) + fns_writes(b) =~= fns_writes(a) + fns_writes(b.drop_last())
            + stmts_writes(b.last().body.stmts@));
    }
}

/// The writes of some files are those of a first part followed by those of
/// the rest; one file gives the writes of its items.
pub proof fn lemma_files_writes_split(a: Seq<SourceFile>, b: Seq<SourceFile>)
    ensures
        files_writes(a + b) == files_writes(a) + files_writes(b),
        a.len() == 1 ==> files_writes(a) == items_writes(a[0].items@),
    decreases b.len(),
{
    if a.len() == 1 {
        assert(a.drop_last() =~= Seq::<SourceFile>::empty());
        assert(files_writes(a.drop_last()) == Seq::<StorageWriteView>::empty());
        assert(a.last() == a[0]);
        assert(Seq::<StorageWriteView>::empty() + items_writes(a[0].items@) =~= items_writes(
            a[0].items@,
        ));
    }
    if b.len() == 0 {
        assert(a + b =~= a);
        assert(files_writes(a) + files_writes(b) =~= files_writes(a));
    } else {
        lemma_files_writes_split(a, b.drop_last());
        assert((a + b).drop_last() =~= a + b.drop_last());
        assert((a + b).last() == b.last());
        assert(files_writes(a) + files_writes(b) =~= files_writes(a) + files_writes(b.drop_last())
            + items_writes(b.last().items@));
    }
}

} // verus!
