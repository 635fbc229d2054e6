//! Authorization calls in public functions.
//!
//! A function counts as calling `require_auth()` (or
//! `require_auth_for_args()`) when a method call of that name appears among
//! its statements, inside nested blocks, `if` branches or `match` arms. Calls
//! inside other expressions (closures, arguments, receivers) and calls made
//! by helper functions are not seen.
use vstd::prelude::*;
use crate::syn_bridge::{all_parse, first_unparsed, parse_source, parsed_file, parsed_files};
use crate::syntax::{BlockRepr, ExprRepr, FnRepr, ItemRepr, SourceFile, SourceText, StmtRepr};
use crate::text::str_eq;
use crate::types::{FunctionAuth, FunctionAuthView};

verus! {

/// Why auth extraction failed.
#[derive(Debug, Clone, PartialEq, Eq)]
pub enum AuthExtractError {
    /// A source file could not be read.
    Io(String),
    /// A source file is not valid Rust.
    Parse { path: String, message: String },
    /// The crate's directory could not be walked.
    Walk(String),
}

/// Whether a call of method `m` appears in `e`, as far as the analysis looks.
pub open spec fn expr_calls(e: ExprRepr, m: Seq<char>) -> bool
    decreases e,
{
    match e {
        ExprRepr::MethodCall { method, .. } => method@ == m,
        ExprRepr::Block(b) => stmts_call(b.stmts@, m),
        ExprRepr::If { then_branch, else_branch } => stmts_call(then_branch.stmts@, m) || match else_branch {
            Some(x) => expr_calls(*x, m),
            None => false,
        },
        ExprRepr::Match { arms } => exprs_call(arms@, m),
        ExprRepr::Other => false,
    }
}

pub open spec fn exprs_call(es: Seq<ExprRepr>, m: Seq<char>) -> bool
    decreases es,
{
    if es.len() == 0 {
        false
    } else {
        exprs_call(es.drop_last(), m) || expr_calls(es.last(), m)
    }
}

pub open spec fn stmt_calls(s: StmtRepr, m: Seq<char>) -> bool
    decreases s,
{
    match s {
        StmtRepr::Expr(e) => expr_calls(e, m),
        StmtRepr::Local(Some(e)) => expr_calls(e, m),
        _ => false,
    }
}

pub open spec fn stmts_call(ss: Seq<StmtRepr>, m: Seq<char>) -> bool
    decreases ss,
{
    if ss.len() == 0 {
        false
    } else {
        stmts_call(ss.drop_last(), m) || stmt_calls(ss.last(), m)
    }
}

/// What a function is reported as.
pub open spec fn fn_auth(f: FnRepr) -> FunctionAuthView {
    FunctionAuthView {
        function_name: f.name@,
        has_require_auth: stmts_call(f.body.stmts@, "require_auth"@),
        has_require_auth_for_args: stmts_call(f.body.stmts@, "require_auth_for_args"@),
    }
}

/// The public functions among `fs`, reported.
pub open spec fn pub_fns_auth(fs: Seq<FnRepr>) -> Seq<FunctionAuthView>
    decreases fs.len(),
{
    if fs.len() == 0 {
        Seq::empty()
    } else {
        pub_fns_auth(fs.drop_last()) + if fs.last().is_pub {
            seq![fn_auth(fs.last())]
        } else {
            Seq::empty()
        }
    }
}

/// The public functions of an item: a `pub fn`, or the `pub` methods of an
/// impl block.
pub open spec fn item_functions(it: ItemRepr) -> Seq<FunctionAuthView> {
    match it {
        ItemRepr::Fn(f) => if f.is_pub {
            seq![fn_auth(f)]
        } else {
            Seq::empty()
        },
        ItemRepr::Impl { methods } => pub_fns_auth(methods@),
        _ => Seq::empty(),
    }
}

/// The public functions of the items, in order.
pub open spec fn items_functions(items: Seq<ItemRepr>) -> Seq<FunctionAuthView>
    decreases items.len(),
{
    if items.len() == 0 {
        Seq::empty()
    } else {
        items_functions(items.drop_last()) + item_functions(items.last())
    }
}

/// The public functions of the files, in order.
pub open spec fn files_functions(files: Seq<SourceFile>) -> Seq<FunctionAuthView>
    decreases files.len(),
{
    if files.len() == 0 {
        Seq::empty()
    } else {
        files_functions(files.drop_last()) + items_functions(files.last().items@)
    }
}

/// Sets the flags for the auth calls in `stmts`.
#[verifier::loop_isolation(false)]
pub fn check_block_stmts(stmts: &Vec<StmtRepr>, has_auth: &mut bool, has_auth_for_args: &mut bool)
    ensures
        *final(has_auth) == (*old(has_auth) || stmts_call(stmts@, "require_auth"@)),
        *final(has_auth_for_args) == (*old(has_auth_for_args) || stmts_call(
            stmts@,
            "require_auth_for_args"@,
        )),
    decreases stmts,
{
    let ghost a0 = *has_auth;
    let ghost b0 = *has_auth_for_args;
    let mut i: usize = 0;
    while i < stmts.len()
        invariant
            i <= stmts.len(),
            *has_auth == (a0 || stmts_call(stmts@.take(i as int), "require_auth"@)),
            *has_auth_for_args == (b0 || stmts_call(stmts@.take(i as int), "require_auth_for_args"@)),
        decreases stmts.len() - i,
    {
        assert(stmts@.take(i + 1).drop_last() =~= stmts@.take(i as int));
        assert(stmts@.take(i + 1).last() == stmts@[i as int]);
        let ghost s = stmts@[i as int];
        match &stmts[i] {
            StmtRepr::Expr(e) => {
                check_expr(e, has_auth, has_auth_for_args);
            },
            StmtRepr::Local(Some(e)) => {
                check_expr(e, has_auth, has_auth_for_args);
            },
            _ => {},
        }
        assert(*has_auth == (a0 || stmts_call(stmts@.take(i as int), "require_auth"@) || stmt_calls(s, "require_auth"@)));
        assert(*has_auth_for_args == (b0 || stmts_call(stmts@.take(i as int), "require_auth_for_args"@) || stmt_calls(s, "require_auth_for_args"@)));
        i = i + 1;
    }
    assert(stmts@.take(stmts.len() as int) =~= stmts@);
}

/// Sets the flags for the auth calls in `expr`.
#[verifier::loop_isolation(false)]
pub fn check_expr(expr: &ExprRepr, has_auth: &mut bool, has_auth_for_args: &mut bool)
    ensures
        *final(has_auth) == (*old(has_auth) || expr_calls(*expr, "require_auth"@)),
        *final(has_auth_for_args) == (*old(has_auth_for_args) || expr_calls(
            *expr,
            "require_auth_for_args"@,
        )),
    decreases expr,
{
    match expr {
        ExprRepr::MethodCall { method, .. } => {
            if str_eq(method.as_str(), "require_auth") {
                *has_auth = true;
            } else if str_eq(method.as_str(), "require_auth_for_args") {
                *has_auth_for_args = true;
            }
            proof {
                reveal_strlit("require_auth");
                reveal_strlit("require_auth_for_args");
                assert("require_auth"@.len() != "require_auth_for_args"@.len());
            }
        },
        ExprRepr::Block(b) => {
            check_block_stmts(&b.stmts, has_auth, has_auth_for_args);
        },
        ExprRepr::If { then_branch, else_branch } => {
            check_block_stmts(&then_branch.stmts, has_auth, has_auth_for_args);
            match else_branch {
                Some(x) => {
                    check_expr(x, has_auth, has_auth_for_args);
                },
                None => {},
            }
        },
        ExprRepr::Match { arms } => {
            let ghost a0 = *has_auth;
            let ghost b0 = *has_auth_for_args;
            let mut i: usize = 0;
            while i < arms.len()
                invariant
                    i <= arms.len(),
                    *has_auth == (a0 || exprs_call(arms@.take(i as int), "require_auth"@)),
                    *has_auth_for_args == (b0 || exprs_call(
                        arms@.take(i as int),
                        "require_auth_for_args"@,
                    )),
                decreases arms.len() - i,
            {
                assert(arms@.take(i + 1).drop_last() =~= arms@.take(i as int));
                assert(arms@.take(i + 1).last() == arms@[i as int]);
                check_expr(&arms[i], has_auth, has_auth_for_args);
                i = i + 1;
            }
            assert(arms@.take(arms.len() as int) =~= arms@);
        },
        ExprRepr::Other => {},
    }
}

/// Whether a function body calls `require_auth()` and whether it calls
/// `require_auth_for_args()`.
pub fn extract_auth_from_block(block: &BlockRepr) -> (r: (bool, bool))
    ensures
        r.0 == stmts_call(block.stmts@, "require_auth"@),
        r.1 == stmts_call(block.stmts@, "require_auth_for_args"@),
{
    let mut has_auth = false;
    let mut has_auth_for_args = false;
    check_block_stmts(&block.stmts, &mut has_auth, &mut has_auth_for_args);
    (has_auth, has_auth_for_args)
}

fn function_auth(f: &FnRepr) -> (r: FunctionAuth)
    ensures
        r@ == fn_auth(*f),
{
    let (has_auth, has_auth_for_args) = extract_auth_from_block(&f.body);
    FunctionAuth {
        function_name: f.name.clone(),
        has_require_auth: has_auth,
        has_require_auth_for_args: has_auth_for_args,
    }
}

/// Appends the public functions of a parsed file, with their auth calls.
pub fn push_file_functions(file: &SourceFile, functions: &mut Vec<FunctionAuth>)
    ensures
        final(functions).deep_view() == old(functions).deep_view() + items_functions(file.items@),
{
    let ghost start = functions.deep_view();
    let items = &file.items;
    let mut i: usize = 0;
    while i < items.len()
        invariant
            i <= items.len(),
            functions.deep_view() == start + items_functions(items@.take(i as int)),
        decreases items.len() - i,
    {
        assert(items@.take(i + 1).drop_last() =~= items@.take(i as int));
        assert(items@.take(i + 1).last() == items@[i as int]);
        let ghost before = functions.deep_view();
        match &items[i] {
            ItemRepr::Fn(f) => {
                if f.is_pub {
                    let fa = function_auth(f);
                    functions.push(fa);
                    assert(functions.deep_view() =~= before.push(fn_auth(*f)));
                }
            },
            ItemRepr::Impl { methods } => {
                let mut j: usize = 0;
                while j < methods.len()
                    invariant
                        j <= methods.len(),
                        functions.deep_view() == before + pub_fns_auth(methods@.take(j as int)),
                    decreases methods.len() - j,
                {
                    assert(methods@.take(j + 1).drop_last() =~= methods@.take(j as int));
                    assert(methods@.take(j + 1).last() == methods@[j as int]);
                    let ghost mid = functions.deep_view();
                    if methods[j].is_pub {
                        let fa = function_auth(&methods[j]);
                        functions.push(fa);
                        assert(functions.deep_view() =~= mid.push(fn_auth(methods@[j as int])));
                    }
                    assert(functions.deep_view() =~= before + pub_fns_auth(methods@.take(j + 1)));
                    j = j + 1;
                }
                assert(methods@.take(methods.len() as int) =~= methods@);
            },
            _ => {},
        }
        assert(functions.deep_view() =~= start + items_functions(items@.take(i + 1)));
        i = i + 1;
    }
    assert(items@.take(items.len() as int) =~= items@);
}

/// Extracts the auth calls of all public functions of a crate's sources.
/// Functions without either call are reported too, with both flags false.
///
/// On success the result is what the parsed files give, one file per
/// source, in order; a source that does not parse fails the whole with its
/// path.
pub fn extract_auth(sources: &Vec<SourceText>) -> (r: Result<Vec<FunctionAuth>, AuthExtractError>)
    ensures
        r is Ok <==> all_parse(sources@),
        match r {
            Ok(fns) => fns.deep_view() == files_functions(parsed_files(sources@)),
            Err(AuthExtractError::Parse { path, .. }) => exists|i: int|
                first_unparsed(sources@, i) && path@ == sources@[i].path@,
            Err(_) => false,
        },
{
    let mut functions: Vec<FunctionAuth> = Vec::new();
    let ghost mut files: Seq<SourceFile> = Seq::empty();
    let mut i: usize = 0;
    assert(functions.deep_view() =~= files_functions(files));
    while i < sources.len()
        invariant
            i <= sources.len(),
            files.len() == i,
            forall|k: int|
                0 <= k < i ==> (#[trigger] parsed_file(sources@[k].content@)) is Some && files[k]
                    == parsed_file(sources@[k].content@)->0,
            functions.deep_view() == files_functions(files),
        decreases sources.len() - i,
    {
        match parse_source(sources[i].content.as_str()) {
            Err(message) => {
                assert(first_unparsed(sources@, i as int));
                return Err(AuthExtractError::Parse { path: sources[i].path.clone(), message });
            },
            Ok(file) => {
                push_file_functions(&file, &mut functions);
                proof {
                    assert(files.push(file).drop_last() =~= files);
                    files = files.push(file);
                }
            },
        }
        i = i + 1;
    }
    assert(files =~= parsed_files(sources@));
    Ok(functions)
}

// ---------------------------------------------------------------------------
// Laws
// ---------------------------------------------------------------------------

/// Statements contain a call of `m` exactly when one of them does, wherever
/// it stands.
pub proof fn lemma_stmts_call_any(ss: Seq<StmtRepr>, m: Seq<char>)
    ensures
        stmts_call(ss, m) <==> exists|i: int| 0 <= i < ss.len() && stmt_calls(#[trigger] ss[i], m),
    decreases ss.len(),
{
    if ss.len() > 0 {
        let p = ss.drop_last();
        lemma_stmts_call_any(p, m);
        if stmts_call(p, m) {
            let i = choose|i: int| 0 <= i < p.len() && stmt_calls(#[trigger] p[i], m);
            assert(ss[i] == p[i]);
        }
        if stmt_calls(ss.last(), m) {
            assert(stmt_calls(ss[ss.len() - 1], m));
        }
        if exists|i: int| 0 <= i < ss.len() && stmt_calls(#[trigger] ss[i], m) {
            let i = choose|i: int| 0 <= i < ss.len() && stmt_calls(#[trigger] ss[i], m);
            if i < ss.len() - 1 {
                assert(p[i] == ss[i]);
            }
        }
    }
}

/// Expressions contain a call of `m` exactly when one of them does,
/// wherever it stands.
pub proof fn lemma_exprs_call_any(es: Seq<ExprRepr>, m: Seq<char>)
    ensures
        exprs_call(es, m) <==> exists|i: int| 0 <= i < es.len() && expr_calls(#[trigger] es[i], m),
    decreases es.len(),
{
    if es.len() > 0 {
        let p = es.drop_last();
        lemma_exprs_call_any(p, m);
        if exprs_call(p, m) {
            let i = choose|i: int| 0 <= i < p.len() && expr_calls(#[trigger] p[i], m);
            assert(es[i] == p[i]);
        }
        if expr_calls(es.last(), m) {
            assert(expr_calls(es[es.len() - 1], m));
        }
        if exists|i: int| 0 <= i < es.len() && expr_calls(#[trigger] es[i], m) {
            let i = choose|i: int| 0 <= i < es.len() && expr_calls(#[trigger] es[i], m);
            if i < es.len() - 1 {
                assert(p[i] == es[i]);
            }
        }
    }
}

/// Where a call of `m` is found: a method call of that name; a block, an
/// `if` (its then-branch or its `else`) or a `match` (any arm) holding
/// one in any of its statements or arms; an expression statement or a
/// `let` initializer holding one. Nothing else counts.
pub proof fn lemma_calls_found_anywhere(e: ExprRepr, s: StmtRepr, m: Seq<char>)
    ensures
        e matches ExprRepr::MethodCall { method, .. } ==> (expr_calls(e, m) <==> method@ == m),
        e matches ExprRepr::Block(b) ==> (expr_calls(e, m) <==> exists|i: int|
            0 <= i < b.stmts@.len() && stmt_calls(#[trigger] b.stmts@[i], m)),
        e matches ExprRepr::If { then_branch, else_branch } ==> (expr_calls(e, m) <==> (exists|i: int|
            0 <= i < then_branch.stmts@.len() && stmt_calls(#[trigger] then_branch.stmts@[i], m)) || (
        else_branch matches Some(x) && expr_calls(*x, m))),
        e matches ExprRepr::Match { arms } ==> (expr_calls(e, m) <==> exists|i: int|
            0 <= i < arms@.len() && expr_calls(#[trigger] arms@[i], m)),
        e is Other ==> !expr_calls(e, m),
        s matches StmtRepr::Expr(x) ==> (stmt_calls(s, m) <==> expr_calls(x, m)),
        s matches StmtRepr::Local(Some(x)) ==> (stmt_calls(s, m) <==> expr_calls(x, m)),
        s matches StmtRepr::Local(None) ==> !stmt_calls(s, m),
        s is Other ==> !stmt_calls(s, m),
{
    match e {
        ExprRepr::Block(b) => {
            lemma_stmts_call_any(b.stmts@, m);
        },
        ExprRepr::If { then_branch, else_branch } => {
            lemma_stmts_call_any(then_branch.stmts@, m);
        },
        ExprRepr::Match { arms } => {
            lemma_exprs_call_any(arms@, m);
        },
        _ => {},
    }
}

/// A function is reported under its name, as calling `require_auth()`
/// (or `require_auth_for_args()`) exactly when some statement of its body
/// holds such a call, wherever the statement stands.
pub proof fn lemma_function_auth_flags(f: FnRepr)
    ensures
        fn_auth(f).function_name == f.name@,
        fn_auth(f).has_require_auth <==> exists|i: int|
            0 <= i < f.body.stmts@.len() && stmt_calls(#[trigger] f.body.stmts@[i], "require_auth"@),
        fn_auth(f).has_require_auth_for_args <==> exists|i: int|
            0 <= i < f.body.stmts@.len() && stmt_calls(
                #[trigger] f.body.stmts@[i],
                "require_auth_for_args"@,
            ),
{
    lemma_stmts_call_any(f.body.stmts@, "require_auth"@);
    lemma_stmts_call_any(f.body.stmts@, "require_auth_for_args"@);
}

/// The public functions of some functions are those of a first part
/// followed by those of the rest: each function is reported, in order,
/// exactly when it is public.
pub proof fn lemma_pub_fns_auth_split(a: Seq<FnRepr>, b: Seq<FnRepr>)
    ensures
        pub_fns_auth(a + b) == pub_fns_auth(a) + pub_fns_auth(b),
        a.len() == 1 ==> pub_fns_auth(a) == if a[0].is_pub {
            seq![fn_auth(a[0])]
        } else {
            Seq::<FunctionAuthView>::empty()
        },
    decreases b.len(),
{
    if a.len() == 1 {
        assert(a.drop_last() =~= Seq::<FnRepr>::empty());
        assert(pub_fns_auth(a.drop_last()) == Seq::<FunctionAuthView>::empty());
        assert(a.last() == a[0]);
        let t = if a[0].is_pub {
            seq![fn_auth(a[0])]
        } else {
            Seq::<FunctionAuthView>::empty()
        };
        assert(Seq::<FunctionAuthView>::empty() + t =~= t);
    }
    if b.len() == 0 {
        assert(a + b =~= a);
        assert(pub_fns_auth(a) + pub_fns_auth(b) =~= pub_fns_auth(a));
    } else {
        lemma_pub_fns_auth_split(a, b.drop_last());
        assert((a + b).drop_last() =~= a + b.drop_last());
        assert((a + b).last() == b.last());
        assert(pub_fns_auth(a) + pub_fns_auth(b) =~= pub_fns_auth(a) + pub_fns_auth(b.drop_last()) + (
        if b.last().is_pub {
            seq![fn_auth(b.last())]
        } else {
            Seq::<FunctionAuthView>::empty()
        }));
    }
}

/// The public functions of some items are those of a first part followed
/// by those of the rest; a `pub fn` item is reported, a private one is not,
/// and an impl block gives its public methods.
pub proof fn lemma_items_functions_split(a: Seq<ItemRepr>, b: Seq<ItemRepr>)
    ensures
        items_functions(a + b) == items_functions(a) + items_functions(b),
        a.len() == 1 ==> items_functions(a) == item_functions(a[0]),
        a.len() == 1 ==> (a[0] matches ItemRepr::Fn(f) ==> items_functions(a) == if f.is_pub {
            seq![fn_auth(f)]
        } else {
            Seq::<FunctionAuthView>::empty()
        }),
        a.len() == 1 ==> (a[0] matches ItemRepr::Impl { methods } ==> items_functions(a)
            == pub_fns_auth(methods@)),
    decreases b.len(),
{
    if a.len() == 1 {
        assert(a.drop_last() =~= Seq::<ItemRepr>::empty());
        assert(items_functions(a.drop_last()) == Seq::<FunctionAuthView>::empty());
        assert(a.last() == a[0]);
        assert(Seq::<FunctionAuthView>::empty() + item_functions(a[0]) =~= item_functions(a[0]));
    }
    if b.len() == 0 {
        assert(a + b =~= a);
        assert(items_functions(a) + items_functions(b) =~= items_functions(a));
    } else {
        lemma_items_functions_split(a, b.drop_last());
        assert((a + b).drop_last() =~= a + b.drop_last());
        assert((a + b).last() == b.last());
        assert(items_functions(a) + items_functions(b) =~= items_functions(a) + items_functions(b.drop_last())
            + item_functions(b.last()));
    }
}

/// The public functions of some files are those of a first part followed
/// by those of the rest; one file gives those of its items.
pub proof fn lemma_files_functions_split(a: Seq<SourceFile>, b: Seq<SourceFile>)
    ensures
        files_functions(a + b) == files_functions(a) + files_functions(b),
        a.len() == 1 ==> files_functions(a) == items_functions(a[0].items@),
    decreases b.len(),
{
    if a.len() == 1 {
        assert(a.drop_last() =~= Seq::<SourceFile>::empty());
        assert(files_functions(a.drop_last()) == Seq::<FunctionAuthView>::empty());
        assert(a.last() == a[0]);
        assert(Seq::<FunctionAuthView>::empty() + items_functions(a[0].items@) =~= items_functions(
            a[0].items@,
        ));
    }
    if b.len() == 0 {
        assert(a + b =~= a);
        assert(files_functions(a) + files_functions(b) =~= files_functions(a));
    } else {
        lemma_files_functions_split(a, b.drop_last());
        assert((a + b).drop_last() =~= a + b.drop_last());
        assert((a + b).last() == b.last());
        assert(files_functions(a) + files_functions(b) =~= files_functions(a) + files_functions(
            b.drop_last(),
        ) + items_functions(b.last().items@));
    }
}

} // verus!
