use viletech::cvarinfo::{parse, parse_prefix, CVarDecl, CVarDefault, CVarKind, Error, Fault, Scope};

fn find<'a>(decls: &'a [CVarDecl], id: &str) -> &'a CVarDecl {
    decls.iter().rev().find(|d| d.id == id).unwrap_or_else(|| panic!("no declaration of {id}"))
}

#[test]
fn valid() {
    const SOURCE: &str = r#"
server int delusive_bunker = 42;

USER
latch BOOL MEAT_GRINDER = false;

nOsAvE 	cheat color blueroom =
"F5 3A 95";

nosave server
noarchive 	float
fullConfession = 0.369;

user
	nosave
string	
KatanaZERO
=
"LudoWic";

		"#;

    let decls = match parse(SOURCE) {
        Ok(d) => d,
        Err(err) => panic!("{:?}", err),
    };

    let pref1 = find(&decls, "delusive_bunker");
    assert_eq!(pref1.default, Some(CVarDefault::Int(42)));
    assert_eq!(pref1.kind, CVarKind::Int);
    assert_eq!(pref1.scope, Scope::Server);
    assert!(pref1.saved);

    let pref2 = find(&decls, "MEAT_GRINDER");
    assert!(pref2.latch);

    let pref3 = find(&decls, "blueroom");
    assert!(pref3.cheat);

    let pref4 = find(&decls, "fullConfession");
    assert!(!pref4.written);

    let pref5 = find(&decls, "KatanaZERO");
    assert_eq!(pref5.default, Some(CVarDefault::Text("LudoWic".to_string())));
    assert_eq!(pref5.kind, CVarKind::String);
    assert_eq!(pref5.scope, Scope::Client);
    assert!(!pref5.saved);
}

#[test]
fn parse_reads_every_setting_of_a_declaration() {
    let decls = parse("user noarchive cheat latch bool flag_a = true;").unwrap();
    assert_eq!(decls.len(), 1);
    let d = &decls[0];
    assert_eq!(d.id, "flag_a");
    assert_eq!(d.scope, Scope::Client);
    assert_eq!(d.kind, CVarKind::Bool);
    assert_eq!(d.default, Some(CVarDefault::Bool(true)));
    assert!(d.saved && d.latch && d.cheat && !d.written);
}

#[test]
fn parse_keeps_a_float_default_as_written_and_strips_quotes_from_colors() {
    let decls = parse("server float f = 1.5; server color c = \"00 ff 00\";").unwrap();
    assert_eq!(decls[0].default, Some(CVarDefault::Float("1.5".to_string())));
    assert_eq!(decls[1].default, Some(CVarDefault::Text("00 ff 00".to_string())));
}

#[test]
fn parse_of_whitespace_only_gives_nothing() {
    assert!(parse(" \n\t ").unwrap().is_empty());
    assert!(parse("").unwrap().is_empty());
}

fn fault_of(src: &str) -> Fault {
    match parse(src) {
        Ok(_) => panic!("expected an error for {src:?}"),
        Err(e) => e.fault(),
    }
}

#[test]
fn parse_reports_each_fault() {
    assert_eq!(fault_of("server int x = 1"), Fault::Unterminated);
    assert_eq!(fault_of(" = 3;"), Fault::NoScope);
    assert_eq!(fault_of("global int x;"), Fault::InvalidScope);
    assert_eq!(fault_of("server = 1;"), Fault::NoId);
    assert_eq!(fault_of("server int x-y = 1;"), Fault::InvalidId);
    assert_eq!(fault_of("server int latch = 1;"), Fault::KeywordId);
    assert_eq!(fault_of("server x = 1;"), Fault::NoKind);
    assert_eq!(fault_of("server thing x = 1;"), Fault::NoKind);
    assert_eq!(fault_of("server bool x = yes;"), Fault::DefaultParseBool);
    assert_eq!(fault_of("server int x = 99999999999;"), Fault::DefaultParseInt);
}

#[test]
fn invalid_scope_carries_the_scope_word() {
    match parse("Global int x;") {
        Err(Error::InvalidScope(s)) => assert_eq!(s, "Global"),
        other => panic!("unexpected: {other:?}"),
    }
}

#[test]
fn the_first_faulty_declaration_decides() {
    assert_eq!(fault_of("server int a = 1; server int b = x; global int c;"), Fault::DefaultParseInt);
}

#[test]
fn a_declaration_without_a_default_keeps_its_semicolon_in_the_name() {
    // Without `=`, the name runs up to the semicolon, which no name may hold.
    assert_eq!(fault_of("server int n;"), Fault::InvalidId);
    assert_eq!(fault_of("server;"), Fault::InvalidScope);
}

#[test]
fn parse_prefix_gives_the_declarations_before_the_first_fault() {
    let (decls, fault) = parse_prefix("user bool a = true; user float f = 1.5; user int b = x; user int c = 3;");
    assert_eq!(decls.len(), 2);
    assert_eq!(decls[0].id, "a");
    assert_eq!(decls[1].default, Some(CVarDefault::Float("1.5".to_string())));
    assert!(matches!(fault, Some(Error::DefaultParseInt(_))));
    let (all, none) = parse_prefix("server int x = 4;");
    assert_eq!(all.len(), 1);
    assert!(none.is_none());
}
