use std::str::FromStr;
use tiny_shell::builtin::Builtin;

#[test]
fn every_keyword_resolves() {
    let table = [
        ("echo", Builtin::Echo),
        ("exit", Builtin::Exit),
        ("cat", Builtin::Cat),
        ("pwd", Builtin::Pwd),
        ("rm", Builtin::Rm),
        ("ls", Builtin::Ls),
        ("mkdir", Builtin::Mkdir),
        ("clear", Builtin::Clear),
        ("help", Builtin::Help),
    ];
    for (k, b) in table {
        assert_eq!(Builtin::resolve(k), Some(b));
        assert_eq!(b.keyword(), k);
        assert_eq!(Builtin::from_str(k), Ok(b));
    }
}

#[test]
fn other_keywords_are_unresolved() {
    let others = [
        "Echo", "ECHO", "Exit", "Ls", "PWD", "Help", "", "ech", "e", "echo ", " ls", "exit\n",
        "mk", "mkdi", "helpme", "echoo", "nosuchcmd",
    ];
    for k in others {
        assert_eq!(Builtin::resolve(k), None, "{}", k);
        assert_eq!(Builtin::from_str(k), Err(()));
    }
}
