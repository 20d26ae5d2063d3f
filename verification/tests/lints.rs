use soroban_storage::cli::lint::{annotation, default_path, summarize, summary_line};
use soroban_storage::lints::parse::{
    chain_lifecycle, derives_critical, is_terminal_method, is_ttl_method, normalize, ArgExpr,
    FileModel, FnStorage, Lifecycle, StorageChain, StorageDecl,
};
use soroban_storage::lints::rules::{split_words, type_looks_collection, type_looks_critical, Severity};
use soroban_storage::lints::scan::{scan_items, SourceFn, SourceItem};
use soroban_storage::lints::walk::{scan_fn, AttrSyntax, FnSyntax, ItemSyntax, Syntax};
use soroban_storage::lints::items::{derive_lists, item_source, lint_parsed, source_items};
use soroban_storage::grammar::{Token, TokenKind};
use soroban_storage::lints::{descends_into, is_rust_file, lint_model, Finding, LintOptions};

#[test]
fn deny_warnings_config_is_visible() {
    let opts = LintOptions {
        deny_warnings: true,
        ..LintOptions::default()
    };
    assert!(opts.deny_warnings);
}

const TEMPORARY_CRITICAL: &str = "use soroban_sdk::{Address, Env};

#[derive(soroban_storage::Critical)]
pub struct Balance {
    pub amount: i128,
}

pub fn write_balance_to_temp(env: Env, key: soroban_sdk::Symbol, balance: Balance) {
    env.storage().temporary().set(&key, &balance);
}

pub fn write_funds_to_temp(env: Env, key: soroban_sdk::Symbol, funds: i128) {
    env.storage().temporary().set(&key, &funds);
}

pub fn write_named_type(env: Env, key: soroban_sdk::Symbol, amount: TokenBalance) {
    env.storage().temporary().set(&key, &amount);
}

pub struct TokenBalance {
    pub amount: i128,
}
";

fn binding(name: &str, ty: &str) -> (String, String) {
    (name.to_string(), ty.to_string())
}

fn reference(name: &str) -> ArgExpr {
    ArgExpr::Reference(Box::new(ArgExpr::Path(name.to_string())))
}

fn write(lifecycle: Lifecycle, method: &str, value: ArgExpr, line: usize) -> StorageChain {
    StorageChain {
        lifecycle,
        method: method.to_string(),
        args: vec![reference("key"), value],
        line,
        column: 5,
        inside_loop: false,
    }
}

fn function(value: &str, ty: &str, chain: StorageChain, has_ttl_call: bool) -> FnStorage {
    FnStorage {
        chains: vec![chain],
        has_ttl_call,
        bindings: vec![
            binding("env", "Env"),
            binding("key", "soroban_sdk::Symbol"),
            binding(value, ty),
        ],
        self_type: None,
    }
}

/// The model of the source above, as the syntax scan builds it.
fn temporary_critical_model() -> FileModel {
    let mut model = FileModel::new();
    model.critical_types.push("Balance".to_string());
    model.struct_field_counts.push(("Balance".to_string(), 1));
    model.struct_field_counts.push(("TokenBalance".to_string(), 1));
    model.fns.push(function(
        "balance",
        "Balance",
        write(Lifecycle::Temporary, "set", reference("balance"), 9),
        false,
    ));
    model.fns.push(function(
        "funds",
        "i128",
        write(Lifecycle::Temporary, "set", reference("funds"), 13),
        false,
    ));
    model.fns.push(function(
        "amount",
        "TokenBalance",
        write(Lifecycle::Temporary, "set", reference("amount"), 17),
        false,
    ));
    for f in &model.fns {
        for (n, t) in &f.bindings {
            model.bindings.push((n.clone(), t.clone()));
        }
    }
    model
}

fn count(findings: &[Finding], rule: &str) -> usize {
    findings.iter().filter(|f| f.rule == rule).count()
}

#[test]
fn critical_values_in_temporary_storage_are_errors() {
    let findings = lint_model(
        "temporary_critical.rs",
        TEMPORARY_CRITICAL,
        &temporary_critical_model(),
        &LintOptions::default(),
    );
    // The derived-Critical `Balance` and the critical-looking `TokenBalance`.
    assert_eq!(count(&findings, "temporary_critical_type"), 2);
    for f in findings.iter().filter(|f| f.rule == "temporary_critical_type") {
        assert_eq!(f.severity, Severity::Error);
        assert_eq!(f.path, "temporary_critical.rs");
        assert!(f.line == 9 || f.line == 17);
        assert!(f.snippet.starts_with("env.storage().temporary().set("));
    }
}

#[test]
fn ignored_rules_report_nothing() {
    let opts = LintOptions {
        deny_warnings: false,
        ignored_rules: vec!["temporary_critical_type".to_string()],
    };
    let findings = lint_model(
        "temporary_critical.rs",
        TEMPORARY_CRITICAL,
        &temporary_critical_model(),
        &opts,
    );
    assert_eq!(count(&findings, "temporary_critical_type"), 0);
}

#[test]
fn writes_without_ttl_management_are_warned_about() {
    let mut model = FileModel::new();
    model.fns.push(function(
        "value",
        "i128",
        write(Lifecycle::Persistent, "set", reference("value"), 3),
        false,
    ));
    // The same write in a function that also extends the TTL is clean.
    model.fns.push(function(
        "value",
        "u64",
        write(Lifecycle::Temporary, "set", reference("value"), 7),
        true,
    ));
    let source = "\n\n    env.storage().persistent().set(&key, &value);\n\n\n\n    env.storage().temporary().set(&key, &value);\n";
    let findings = lint_model("missing_ttl.rs", source, &model, &LintOptions::default());
    assert_eq!(count(&findings, "missing_ttl_extension"), 1);
    let f = findings.iter().find(|f| f.rule == "missing_ttl_extension").unwrap();
    assert_eq!(f.severity, Severity::Warning);
    assert_eq!(f.line, 3);
    assert_eq!(f.snippet, "env.storage().persistent().set(&key, &value);");
}

#[test]
fn temporary_extensions_beyond_the_maximum_are_warned_about() {
    let extend = |ttl: &str, line: usize| StorageChain {
        lifecycle: Lifecycle::Temporary,
        method: "extend_ttl".to_string(),
        args: vec![
            reference("key"),
            ArgExpr::IntLit("0".to_string()),
            ArgExpr::IntLit(ttl.to_string()),
        ],
        line,
        column: 5,
        inside_loop: false,
    };
    let mut model = FileModel::new();
    model.fns.push(FnStorage {
        chains: vec![extend("10000000", 1)],
        has_ttl_call: true,
        bindings: vec![],
        self_type: None,
    });
    model.fns.push(FnStorage {
        chains: vec![extend("1000000", 2)],
        has_ttl_call: true,
        bindings: vec![],
        self_type: None,
    });
    let source = "env.storage().temporary().extend_ttl(&key, 0, 10_000_000);\nenv.storage().temporary().extend_ttl(&key, 0, 1_000_000);\n";
    let findings = lint_model("temp_ttl.rs", source, &model, &LintOptions::default());
    assert_eq!(count(&findings, "temporary_ttl_exceeded"), 1);
    assert_eq!(findings[0].line, 1);
}

#[test]
fn finding_rendering_and_run_outcome() {
    let finding = Finding {
        rule: "missing_ttl_extension",
        severity: Severity::Warning,
        path: "src/lib.rs".to_string(),
        line: 12,
        column: 9,
        message: "no TTL extension".to_string(),
        snippet: "env.storage().persistent().set(&k, &v);".to_string(),
    };
    assert_eq!(
        finding.render(),
        "src/lib.rs:12:9: [warning] no TTL extension (rule: missing_ttl_extension)"
    );
    assert_eq!(
        annotation(&finding),
        "::warning file=src/lib.rs,line=12,col=9::[warning] no TTL extension (rule: missing_ttl_extension)"
    );
    let findings = vec![finding];
    let lenient = summarize(&findings, false);
    assert_eq!((lenient.errors, lenient.warnings, lenient.failed), (0, 1, false));
    let strict = summarize(&findings, true);
    assert!(strict.failed);
    assert_eq!(
        summary_line(strict, 1, 3),
        "storage lint failed: 1 in 3 file(s): 0 error(s), 1 warning(s)"
    );
    assert_eq!(
        summary_line(lenient, 1, 3),
        "storage lint finished: 1 in 3 file(s): 0 error(s), 1 warning(s)"
    );
}

#[test]
fn directory_walk_rules() {
    assert!(descends_into("src"));
    assert!(!descends_into("target"));
    assert!(!descends_into("node_modules"));
    assert!(!descends_into(".git"));
    assert!(is_rust_file(Some("rs")));
    assert!(!is_rust_file(Some("toml")));
    assert!(!is_rust_file(None));
    assert_eq!(default_path(true), "src");
    assert_eq!(default_path(false), ".");
}

#[test]
fn words_of_type_names() {
    assert_eq!(split_words("TokenBalance"), vec!["token", "balance"]);
    assert_eq!(split_words("Vec<u8>"), vec!["vec", "u", "8"]);
    assert_eq!(split_words("Map2Ab"), vec!["map", "2", "ab"]);
    assert_eq!(split_words("HTTPServer"), vec!["httpserver"]);
    assert_eq!(split_words("ÉtatBalance"), vec!["état", "balance"]);
    assert!(split_words("::<>").is_empty());
    assert!(type_looks_critical("TokenBalance"));
    assert!(type_looks_critical("UserFund"));
    assert!(!type_looks_critical("user_funds"));
    assert!(!type_looks_critical("Symbol"));
    assert!(type_looks_collection("Vec<Address>"));
    assert!(type_looks_collection("soroban_sdk::Map<Address,i128>"));
    assert!(!type_looks_collection("u64"));
}

#[test]
fn model_building_rules() {
    assert_eq!(normalize(" soroban_sdk :: Map < Address , i128 > "), "soroban_sdk::Map<Address,i128>");
    // Every Unicode white space goes, and nothing else does.
    assert_eq!(normalize("Vec<\t\n\u{85}\u{a0}\u{1680}\u{2000}\u{200a}\u{2028}\u{2029}\u{202f}\u{205f}\u{3000}u8>"), "Vec<u8>");
    assert_eq!(normalize("a\u{200b}b"), "a\u{200b}b");
    assert!(is_terminal_method("extend_ttl"));
    assert!(is_terminal_method("has"));
    assert!(!is_terminal_method("storage"));
    assert!(is_ttl_method("set_ttl"));
    assert!(!is_ttl_method("set"));
    let names = |xs: &[&str]| xs.iter().map(|s| s.to_string()).collect::<Vec<_>>();
    assert_eq!(chain_lifecycle(&names(&["temporary", "storage"])), Some(Lifecycle::Temporary));
    assert_eq!(chain_lifecycle(&names(&["persistent", "cache"])), None);
    assert_eq!(chain_lifecycle(&names(&["storage"])), None);
    assert!(derives_critical(&vec![names(&["Clone"]), names(&["Debug", "Critical"])]));
    assert!(!derives_critical(&vec![names(&["Clone", "Debug"])]));
    assert_eq!(Lifecycle::from_str("instance"), Some(Lifecycle::Instance));
    assert_eq!(Lifecycle::from_str("forever"), None);

    let attrs = vec![
        Some(names(&["critical"])),
        None,
        Some(names(&["temporary", "critical"])),
        Some(names(&["persistent"])),
    ];
    // The last attribute naming a lifecycle decides, as `storage!` binds it.
    let decl = StorageDecl::from_attrs("Balance".to_string(), "i128".to_string(), &attrs, 3, 4);
    assert_eq!(decl.lifecycle, Lifecycle::Persistent);
    assert!(decl.critical);
    assert_eq!((decl.line, decl.column), (3, 4));
    let nonce = StorageDecl::from_attrs(
        "Nonce".to_string(),
        "u64".to_string(),
        &vec![Some(names(&["persistent"])), Some(names(&["temporary"]))],
        2,
        5,
    );
    assert_eq!(nonce.lifecycle, Lifecycle::Temporary);
    assert!(!nonce.critical);
    let plain = StorageDecl::from_attrs("Admin".to_string(), "Address".to_string(), &vec![], 1, 1);
    assert_eq!(plain.lifecycle, Lifecycle::Persistent);
    assert!(!plain.critical);
}

fn source_fn(params: &[(&str, &str)], chains: Vec<StorageChain>, has_ttl_call: bool) -> SourceFn {
    SourceFn {
        bindings: params.iter().map(|(n, t)| binding(n, t)).collect(),
        chains,
        has_ttl_call,
    }
}

#[test]
fn file_models_are_built_in_two_passes() {
    let items = vec![
        SourceItem::Struct {
            name: "Balance".to_string(),
            field_count: 1,
            fields: vec![binding("amount", "i128")],
            derives: vec![vec!["Clone".to_string()], vec!["Critical".to_string()]],
        },
        SourceItem::Enum {
            name: "Kind".to_string(),
            derives: vec![vec!["Clone".to_string()]],
        },
        SourceItem::Impl {
            trait_name: Some("Critical".to_string()),
            self_path: Some("Position".to_string()),
            self_type: Some("Position".to_string()),
            fns: vec![],
        },
        SourceItem::Impl {
            trait_name: None,
            self_path: Some("Vault".to_string()),
            self_type: Some("Vault".to_string()),
            fns: vec![source_fn(
                &[("env", "Env"), ("user", "Address")],
                vec![write(Lifecycle::Persistent, "set", reference("user"), 9)],
                true,
            )],
        },
        SourceItem::Other,
        SourceItem::Fn(source_fn(&[("key", "Symbol")], vec![], false)),
        SourceItem::Struct {
            name: "Big".to_string(),
            field_count: 4,
            fields: vec![],
            derives: vec![],
        },
    ];
    let model = scan_items(items);
    assert_eq!(model.critical_types, vec!["Balance".to_string(), "Position".to_string()]);
    assert_eq!(
        model.struct_field_counts,
        vec![("Balance".to_string(), 1), ("Big".to_string(), 4)]
    );
    assert_eq!(model.struct_field_types[0].1, vec![binding("amount", "i128")]);
    assert_eq!(
        model.bindings,
        vec![binding("env", "Env"), binding("user", "Address"), binding("key", "Symbol")]
    );
    assert_eq!(model.fns.len(), 2);
    assert_eq!(model.fns[0].self_type.as_deref(), Some("Vault"));
    assert!(model.fns[0].has_ttl_call);
    assert_eq!(model.fns[0].chains.len(), 1);
    assert_eq!(model.fns[1].self_type, None);
    assert!(model.decls.is_empty());
}

#[test]
fn declared_keys_reached_through_instance_storage_are_mismatches() {
    let source = "storage! {
    #[storage(persistent)]
    Balance(Address) -> i128,
}
pub fn f(env: Env, u: Address) {
    env.storage().instance().set(&StorageKey::Balance(u), &1i128);
}
";
    let key = ArgExpr::Reference(Box::new(ArgExpr::Call(Box::new(ArgExpr::Path(
        "Balance".to_string(),
    )))));
    let chain = StorageChain {
        lifecycle: Lifecycle::Instance,
        method: "set".to_string(),
        args: vec![key, ArgExpr::Reference(Box::new(ArgExpr::IntLit("1".to_string())))],
        line: 6,
        column: 5,
        inside_loop: false,
    };
    let items = vec![
        SourceItem::Storage {
            decls: vec![StorageDecl::from_attrs(
                "Balance".to_string(),
                "i128".to_string(),
                &vec![Some(vec!["persistent".to_string()])],
                3,
                5,
            )],
        },
        SourceItem::Fn(source_fn(&[("env", "Env"), ("u", "Address")], vec![chain], false)),
    ];
    let model = scan_items(items);
    let findings = lint_model("mismatch.rs", source, &model, &LintOptions::default());
    assert_eq!(count(&findings, "lifecycle_mismatch"), 1);
    let f = findings.iter().find(|f| f.rule == "lifecycle_mismatch").unwrap();
    assert_eq!(f.severity, Severity::Error);
    assert_eq!(f.line, 6);
    assert!(f.message.contains("declared `persistent`"));
    assert!(f.message.contains("accessed through `.instance()`"));
}

fn path_expr(name: &str) -> Syntax {
    Syntax::Path(name.to_string())
}

fn call_method(receiver: Syntax, method: &str, args: Vec<Syntax>, line: usize) -> Syntax {
    Syntax::MethodCall {
        receiver: Box::new(receiver),
        method: method.to_string(),
        args,
        line,
        column: 8,
    }
}

fn storage_of(lifecycle: &str, line: usize) -> Syntax {
    let storage = call_method(path_expr("env"), "storage", vec![], line);
    call_method(storage, lifecycle, vec![], line)
}

fn borrowed(name: &str) -> Syntax {
    Syntax::Reference(Box::new(path_expr(name)))
}

#[test]
fn the_walk_finds_chains_loops_and_ttl_calls() {
    // for item in items { env.storage().temporary().set(&key, &funds); }
    let write = call_method(storage_of("temporary", 4), "set", vec![borrowed("key"), borrowed("funds")], 4);
    // cache.temporary().get(&key): not a storage chain.
    let cache = call_method(
        call_method(path_expr("cache"), "temporary", vec![], 6),
        "get",
        vec![borrowed("key")],
        6,
    );
    let body = vec![
        Syntax::Loop(vec![path_expr("items"), Syntax::Other(vec![write])]),
        Syntax::Other(vec![cache]),
    ];
    let f = FnSyntax {
        params: vec![
            ("env".to_string(), "Env".to_string()),
            ("key".to_string(), "Symbol".to_string()),
        ],
        items: vec![
            ItemSyntax::Other,
            ItemSyntax::Fn(FnSyntax {
                params: vec![("inner".to_string(), "u32".to_string())],
                items: vec![],
                body: vec![],
            }),
        ],
        body,
    };
    let scanned = scan_fn(&f);
    assert_eq!(
        scanned.bindings,
        vec![binding("env", "Env"), binding("key", "Symbol"), binding("inner", "u32")]
    );
    assert_eq!(scanned.chains.len(), 1);
    let c = &scanned.chains[0];
    assert_eq!(c.lifecycle, Lifecycle::Temporary);
    assert_eq!(c.method, "set");
    assert_eq!((c.line, c.column), (4, 8));
    assert!(c.inside_loop);
    assert!(matches!(&c.args[0], ArgExpr::Reference(inner) if matches!(&**inner, ArgExpr::Path(p) if p == "key")));
    assert!(!scanned.has_ttl_call);
}

#[test]
fn the_walk_counts_ttl_management_anywhere() {
    // env.storage().persistent().extend_ttl(&key, 100, 200)
    let extend = call_method(
        storage_of("persistent", 2),
        "extend_ttl",
        vec![borrowed("key"), Syntax::IntLit("100".to_string()), Syntax::IntLit("200".to_string())],
        2,
    );
    let scanned = scan_fn(&FnSyntax { params: vec![], items: vec![], body: vec![extend] });
    assert_eq!(scanned.chains.len(), 1);
    assert_eq!(scanned.chains[0].lifecycle, Lifecycle::Persistent);
    assert!(!scanned.chains[0].inside_loop);
    assert!(matches!(&scanned.chains[0].args[1], ArgExpr::IntLit(d) if d == "100"));
    assert!(scanned.has_ttl_call);
    // bump(&env, &key), a free function named like a TTL method.
    let bump = Syntax::Call { func: Box::new(path_expr("bump")), args: vec![borrowed("env"), borrowed("key")] };
    let scanned = scan_fn(&FnSyntax { params: vec![], items: vec![], body: vec![Syntax::Other(vec![bump])] });
    assert!(scanned.chains.is_empty());
    assert!(scanned.has_ttl_call);
}

fn ident_token(s: &str) -> Token {
    Token { kind: TokenKind::Ident(s.to_string()), line: 1, column: 0 }
}

fn punct_token(c: char, joint: bool) -> Token {
    Token { kind: TokenKind::Punct(c, joint), line: 1, column: 0 }
}

fn derive_attr(tokens: Vec<Token>) -> AttrSyntax {
    AttrSyntax { path: vec!["derive".to_string()], list: Some(tokens) }
}

#[test]
fn derive_lists_read_the_last_segment_of_each_path() {
    // #[derive(Clone, soroban_storage::Critical,)] #[derive(Debug Eq)] #[doc = ".."] #[derive(::core::fmt::Debug)]
    let attrs = vec![
        derive_attr(vec![
            ident_token("Clone"),
            punct_token(',', false),
            ident_token("soroban_storage"),
            punct_token(':', true),
            punct_token(':', false),
            ident_token("Critical"),
            punct_token(',', false),
        ]),
        derive_attr(vec![ident_token("Debug"), ident_token("Eq")]),
        AttrSyntax { path: vec!["doc".to_string()], list: None },
        derive_attr(vec![
            punct_token(':', true),
            punct_token(':', false),
            ident_token("core"),
            punct_token(':', true),
            punct_token(':', false),
            ident_token("fmt"),
            punct_token(':', true),
            punct_token(':', false),
            ident_token("Debug"),
        ]),
    ];
    let lists = derive_lists(&attrs);
    assert_eq!(
        lists,
        vec![
            vec!["Clone".to_string(), "Critical".to_string()],
            vec!["Debug".to_string()],
        ]
    );
}

#[test]
fn storage_macros_are_read_by_the_last_segment_of_their_path() {
    let body = vec![
        Token { kind: TokenKind::Punct('#', false), line: 2, column: 4 },
        Token { kind: TokenKind::Open(soroban_storage::grammar::Delimiter::Bracket), line: 2, column: 5 },
        ident_token("storage"),
        Token { kind: TokenKind::Open(soroban_storage::grammar::Delimiter::Parenthesis), line: 2, column: 13 },
        ident_token("temporary"),
        Token { kind: TokenKind::Close(soroban_storage::grammar::Delimiter::Parenthesis), line: 2, column: 22 },
        Token { kind: TokenKind::Close(soroban_storage::grammar::Delimiter::Bracket), line: 2, column: 23 },
        Token { kind: TokenKind::Ident("Nonce".to_string()), line: 3, column: 4 },
        Token { kind: TokenKind::Open(soroban_storage::grammar::Delimiter::Parenthesis), line: 3, column: 9 },
        Token { kind: TokenKind::Close(soroban_storage::grammar::Delimiter::Parenthesis), line: 3, column: 10 },
        punct_token('-', true),
        punct_token('>', false),
        ident_token("u64"),
        punct_token(',', false),
    ];
    let items = vec![
        ItemSyntax::Macro { path: vec!["soroban_storage".to_string(), "storage".to_string()], tokens: body },
        ItemSyntax::Macro { path: vec!["vec".to_string()], tokens: vec![] },
        ItemSyntax::Macro { path: vec!["storage".to_string()], tokens: vec![ident_token("broken")] },
    ];
    let sources = source_items(items);
    match &sources[0] {
        SourceItem::Storage { decls } => {
            assert_eq!(decls.len(), 1);
            assert_eq!(decls[0].variant, "Nonce");
            assert_eq!(decls[0].lifecycle, Lifecycle::Temporary);
            assert_eq!((decls[0].line, decls[0].column), (3, 4));
        }
        _ => panic!("expected a storage declaration"),
    }
    assert!(matches!(sources[1], SourceItem::Other));
    assert!(matches!(&sources[2], SourceItem::Storage { decls } if decls.is_empty()));
    let s = item_source(ItemSyntax::Enum { name: "Kind".to_string(), attrs: vec![derive_attr(vec![ident_token("Critical")])] });
    assert!(matches!(&s, SourceItem::Enum { name, derives } if name == "Kind" && derives.len() == 1));
}

#[test]
fn files_that_do_not_parse_have_no_findings() {
    assert!(lint_parsed("broken.rs", "fn (", None, &LintOptions::default()).is_empty());
    // A file whose only function writes a critical value to temporary storage.
    let write = Syntax::MethodCall {
        receiver: Box::new(Syntax::MethodCall {
            receiver: Box::new(Syntax::MethodCall {
                receiver: Box::new(Syntax::Path("env".to_string())),
                method: "storage".to_string(),
                args: vec![],
                line: 3,
                column: 4,
            }),
            method: "temporary".to_string(),
            args: vec![],
            line: 3,
            column: 4,
        }),
        method: "set".to_string(),
        args: vec![
            Syntax::Reference(Box::new(Syntax::Path("key".to_string()))),
            Syntax::Reference(Box::new(Syntax::Path("funds".to_string()))),
        ],
        line: 3,
        column: 4,
    };
    let items = vec![ItemSyntax::Fn(FnSyntax {
        params: vec![
            ("env".to_string(), "Env".to_string()),
            ("key".to_string(), "Symbol".to_string()),
            ("funds".to_string(), "TokenBalance".to_string()),
        ],
        items: vec![],
        body: vec![write],
    })];
    let source = "pub fn f(env: Env, key: Symbol, funds: TokenBalance) {\n    // write\n    env.storage().temporary().set(&key, &funds);\n}\n";
    let findings = lint_parsed("funds.rs", source, Some(items), &LintOptions::default());
    assert_eq!(count(&findings, "temporary_critical_type"), 1);
}
