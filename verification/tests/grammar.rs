use proc_macro2::{Spacing, TokenStream, TokenTree};
use soroban_storage::grammar::{Delimiter, Token, TokenKind};
use soroban_storage::lints::parse::{parse_storage_body, Lifecycle};
use soroban_storage::schema::{merge_opts, parse_storage_input, plan_storage, EntryAttr, StorageOption};

fn flatten(stream: TokenStream, out: &mut Vec<Token>) {
    for tree in stream {
        let (kind, span) = match tree {
            TokenTree::Ident(i) => (TokenKind::Ident(i.to_string()), i.span()),
            TokenTree::Punct(p) => (TokenKind::Punct(p.as_char(), p.spacing() == Spacing::Joint), p.span()),
            TokenTree::Literal(l) => (TokenKind::Literal(l.to_string()), l.span()),
            TokenTree::Group(g) => {
                let d = match g.delimiter() {
                    proc_macro2::Delimiter::Parenthesis => Delimiter::Parenthesis,
                    proc_macro2::Delimiter::Bracket => Delimiter::Bracket,
                    proc_macro2::Delimiter::Brace => Delimiter::Brace,
                    proc_macro2::Delimiter::None => Delimiter::Invisible,
                };
                let open = g.span_open().start();
                out.push(Token { kind: TokenKind::Open(d), line: open.line, column: open.column });
                flatten(g.stream(), out);
                let close = g.span_close().start();
                out.push(Token { kind: TokenKind::Close(d), line: close.line, column: close.column });
                continue;
            }
        };
        let start = span.start();
        out.push(Token { kind, line: start.line, column: start.column });
    }
}

fn tokens(src: &str) -> Vec<Token> {
    let mut out = Vec::new();
    flatten(src.parse::<TokenStream>().unwrap(), &mut out);
    out
}

const DECLARATION: &str = "
    /// User token balance. Irreplaceable; must never be temporary.
    #[storage(persistent, critical)]
    #[storage(policy = soroban_storage::TtlPolicy::days(7, 30))]
    Balance(Address) -> i128,

    #[storage(temporary)]
    Nonce(Address, u64) -> Vec<u64>,

    #[storage(instance)]
    Admin() -> Address,
";

#[test]
fn the_linter_reads_declared_entries() {
    let decls = parse_storage_body(&tokens(DECLARATION)).unwrap();
    assert_eq!(decls.len(), 3);
    assert_eq!(decls[0].variant, "Balance");
    assert_eq!(decls[0].lifecycle, Lifecycle::Persistent);
    assert!(decls[0].critical);
    assert_eq!(decls[0].value_type, "i128");
    assert_eq!((decls[0].line, decls[0].column), (5, 4));
    assert_eq!(decls[1].variant, "Nonce");
    assert_eq!(decls[1].lifecycle, Lifecycle::Temporary);
    assert_eq!(decls[1].value_type, "Vec<u64>");
    assert_eq!(decls[2].variant, "Admin");
    assert_eq!(decls[2].lifecycle, Lifecycle::Instance);
}

#[test]
fn the_last_lifecycle_given_is_the_one_the_linter_checks() {
    let decls = parse_storage_body(&tokens(
        "#[storage(persistent)] #[storage(temporary)] Nonce(Address) -> u64,",
    ))
    .unwrap();
    assert_eq!(decls.len(), 1);
    assert_eq!(decls[0].variant, "Nonce");
    assert_eq!(decls[0].lifecycle, Lifecycle::Temporary);
    assert!(!decls[0].critical);
}

#[test]
fn bodies_off_the_grammar_are_not_read() {
    // No `->`, no trailing comma, an unclosed `<`, an attribute without a path.
    assert!(parse_storage_body(&tokens("#[storage(persistent)] Balance(Address) i128,")).is_none());
    assert!(parse_storage_body(&tokens("#[storage(persistent)] Balance(Address) -> i128")).is_none());
    assert!(parse_storage_body(&tokens("Balance(Address) -> Vec<i128,")).is_none());
    assert!(parse_storage_body(&tokens("#[] Balance(Address) -> i128,")).is_none());
    // An empty body declares nothing.
    assert_eq!(parse_storage_body(&tokens("")).unwrap().len(), 0);
    // A keyword list that does not parse leaves the entry without it.
    let decls = parse_storage_body(&tokens("#[storage(persistent critical)] Balance() -> i128,")).unwrap();
    assert_eq!(decls[0].lifecycle, Lifecycle::Persistent);
    assert!(!decls[0].critical);
}

#[test]
fn the_macro_reads_options_names_and_types() {
    let entries = parse_storage_input(&tokens(DECLARATION)).ok().unwrap();
    assert_eq!(entries.len(), 3);
    let balance = &entries[0];
    assert_eq!(balance.name, "Balance");
    assert_eq!(balance.arg_types, vec!["Address".to_string()]);
    assert_eq!(balance.value_type, "i128");
    assert_eq!(balance.attrs.len(), 3);
    assert!(matches!(&balance.attrs[0], EntryAttr::Doc(d) if d.starts_with("doc =")));
    match &balance.attrs[1] {
        EntryAttr::Storage(os) => {
            assert_eq!(os.len(), 2);
            assert!(matches!(os[0], StorageOption::Persistent));
            assert!(matches!(os[1], StorageOption::Critical));
        }
        _ => panic!("expected a storage attribute"),
    }
    match &balance.attrs[2] {
        EntryAttr::Storage(os) => match &os[0] {
            StorageOption::Policy(e) => assert_eq!(e, "soroban_storage :: TtlPolicy :: days ( 7 , 30 )"),
            _ => panic!("expected a policy"),
        },
        _ => panic!("expected a storage attribute"),
    }
    assert_eq!(entries[1].arg_types, vec!["Address".to_string(), "u64".to_string()]);
    assert_eq!(entries[1].value_type, "Vec < u64 >");
    assert!(entries[2].arg_types.is_empty());

    let specs = plan_storage(&entries).ok().unwrap();
    assert_eq!(specs[0].key_struct, "BalanceKey");
    assert!(specs[0].critical && specs[0].auto_bump);
    assert_eq!(specs[1].key_struct, "NonceKey");
}

#[test]
fn no_bump_stays_off_across_attributes_of_a_declaration() {
    let entries = parse_storage_input(&tokens(
        "#[storage(persistent, no_bump)] #[storage(policy = TtlPolicy::days(1, 2))] Marker(Address) -> u64,",
    ))
    .ok()
    .unwrap();
    let merged = merge_opts(&entries[0].attrs).ok().unwrap();
    assert!(merged.policy.is_some());
    assert!(!merged.auto_bump);
    let specs = plan_storage(&entries).ok().unwrap();
    assert!(!specs[0].auto_bump);
}

#[test]
fn auto_bump_takes_a_boolean() {
    let entries = parse_storage_input(&tokens(
        "#[storage(temporary, auto_bump = false,)] Nonce(Address) -> u64,",
    ))
    .ok()
    .unwrap();
    match &entries[0].attrs[0] {
        EntryAttr::Storage(os) => {
            assert_eq!(os.len(), 2);
            assert!(matches!(os[1], StorageOption::AutoBump(Some(false))));
        }
        _ => panic!("expected a storage attribute"),
    }
}

#[test]
fn unknown_options_are_reported_by_name() {
    let entries = parse_storage_input(&tokens("#[storage(foo = 3)] X() -> u8,")).ok().unwrap();
    let err = plan_storage(&entries).err().unwrap();
    assert_eq!(err.entry, Some(0));
    assert_eq!(
        err.message,
        "unknown storage option `foo` (expected `persistent`, `temporary`, `instance`, `critical`, `auto_bump`, `no_bump`, or `policy = ...`)"
    );
}

#[test]
fn malformed_declarations_are_errors() {
    assert_eq!(
        parse_storage_input(&tokens("#[storage(persistent)] Balance(Address) i128,")).err().unwrap(),
        "expected `storage!` entries of the form `Name(Type, ..) -> Type,`, each after its `#[...]` attributes"
    );
    assert_eq!(
        parse_storage_input(&tokens("#[storage(policy)] Balance(Address) -> i128,")).err().unwrap(),
        "malformed `#[storage(...)]` attribute: expected options separated by commas"
    );
    assert_eq!(
        parse_storage_input(&tokens("#[storage(persistent critical)] Balance() -> i128,")).err().unwrap(),
        "malformed `#[storage(...)]` attribute: expected options separated by commas"
    );
}

#[test]
fn types_keep_arrows_and_nested_generics() {
    let entries = parse_storage_input(&tokens(
        "#[storage(persistent)] Hook(Map<Address, Vec<u8>>, fn(u32) -> u32) -> Option<(u32, i128)>,",
    ))
    .ok()
    .unwrap();
    assert_eq!(entries[0].arg_types.len(), 2);
    assert_eq!(entries[0].arg_types[0], "Map < Address , Vec < u8 >>");
    assert_eq!(entries[0].arg_types[1], "fn ( u32 ) -> u32");
    assert_eq!(entries[0].value_type, "Option < ( u32 , i128 ) >");
}

#[test]
fn the_linter_and_the_macro_read_the_same_lifecycle() {
    let body = "#[storage(temporary, policy = TtlPolicy::days(1, 2))] Nonce(Address) -> u64,
        #[storage(critical)] #[storage(instance, auto_bump = false)] #[storage(persistent)] Balance(Address) -> i128,";
    let ts = tokens(body);
    let decls = parse_storage_body(&ts).unwrap();
    let entries = parse_storage_input(&ts).ok().unwrap();
    let specs = plan_storage(&entries).ok().unwrap();
    assert_eq!(decls[0].lifecycle, Lifecycle::Temporary);
    assert_eq!(specs[0].lifecycle, soroban_storage::lifecycle::Lifecycle::Temporary);
    assert!(!decls[0].critical && !specs[0].critical);
    assert_eq!(decls[1].lifecycle, Lifecycle::Persistent);
    assert_eq!(specs[1].lifecycle, soroban_storage::lifecycle::Lifecycle::Persistent);
    assert!(decls[1].critical && specs[1].critical);
    assert!(!specs[1].auto_bump);
}
