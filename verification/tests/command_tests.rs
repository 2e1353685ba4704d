use mentat::command::{command, Command};

#[test]
fn test_help_parser_multiple_args() {
    let input = ".help command1 command2";
    let cmd = command(&input).expect("Expected help command");
    match cmd {
        Command::Help(args) => {
            assert_eq!(args, vec!["command1", "command2"]);
        },
        _ => assert!(false)
    }
}

#[test]
fn test_help_parser_dot_arg() {
    let input = ".help .command1";
    let cmd = command(&input).expect("Expected help command");
    match cmd {
        Command::Help(args) => {
            assert_eq!(args, vec![".command1"]);
        },
        _ => assert!(false)
    }
}

#[test]
fn test_help_parser_no_args() {
    let input = ".help";
    let cmd = command(&input).expect("Expected help command");
    match cmd {
        Command::Help(args) => {
            let empty: Vec<String> = vec![];
            assert_eq!(args, empty);
        },
        _ => assert!(false)
    }
}

#[test]
fn test_help_parser_no_args_trailing_whitespace() {
    let input = ".help ";
    let cmd = command(&input).expect("Expected help command");
    match cmd {
        Command::Help(args) => {
            let empty: Vec<String> = vec![];
            assert_eq!(args, empty);
        },
        _ => assert!(false)
    }
}

#[test]
fn test_open_parser_multiple_args() {
    let input = ".open database1 database2";
    let err = command(&input).expect_err("Expected an error");
    assert_eq!(err.to_string(), "Unrecognized argument \"database2\"");
}

#[test]
fn test_open_parser_single_arg() {
    let input = ".open database1";
    let cmd = command(&input).expect("Expected open command");
    match cmd {
        Command::Open(arg) => {
            assert_eq!(arg, "database1".to_string());
        },
        _ => assert!(false)
    }
}

#[test]
fn test_open_parser_path_arg() {
    let input = ".open /path/to/my.db";
    let cmd = command(&input).expect("Expected open command");
    match cmd {
        Command::Open(arg) => {
            assert_eq!(arg, "/path/to/my.db".to_string());
        },
        _ => assert!(false)
    }
}

#[test]
fn test_open_parser_file_arg() {
    let input = ".open my.db";
    let cmd = command(&input).expect("Expected open command");
    match cmd {
        Command::Open(arg) => {
            assert_eq!(arg, "my.db".to_string());
        },
        _ => assert!(false)
    }
}

#[test]
fn test_open_parser_no_args() {
    let input = ".open";
    let err = command(&input).expect_err("Expected an error");
    assert_eq!(err.to_string(), "Missing required argument");
}

#[test]
fn test_open_parser_no_args_trailing_whitespace() {
    let input = ".open ";
    let err = command(&input).expect_err("Expected an error");
    assert_eq!(err.to_string(), "Missing required argument");
}

#[test]
fn test_close_parser_with_args() {
    let input = ".close arg1";
    let err = command(&input).expect_err("Expected an error");
    assert_eq!(err.to_string(), format!("Invalid command {:?}", input));
}

#[test]
fn test_close_parser_no_args() {
    let input = ".close";
    let cmd = command(&input).expect("Expected close command");
    match cmd {
        Command::Close => assert!(true),
        _ => assert!(false)
    }
}

#[test]
fn test_close_parser_no_args_trailing_whitespace() {
    let input = ".close ";
    let cmd = command(&input).expect("Expected close command");
    match cmd {
        Command::Close => assert!(true),
        _ => assert!(false)
    }
}

#[test]
fn test_query_parser_complete_edn() {
    let input = ".q [:find ?x :where [?x foo/bar ?y]]";
    let cmd = command(&input).expect("Expected query command");
    match cmd {
        Command::Query(edn) => assert_eq!(edn, "[:find ?x :where [?x foo/bar ?y]]"),
        _ => assert!(false)
    }
}

#[test]
fn test_query_parser_alt_query_command() {
    let input = ".query [:find ?x :where [?x foo/bar ?y]]";
    let cmd = command(&input).expect("Expected query command");
    match cmd {
        Command::Query(edn) => assert_eq!(edn, "[:find ?x :where [?x foo/bar ?y]]"),
        _ => assert!(false)
    }
}

#[test]
fn test_query_parser_incomplete_edn() {
    let input = ".q [:find ?x\r\n";
    let cmd = command(&input).expect("Expected query command");
    match cmd {
        Command::Query(edn) => assert_eq!(edn, "[:find ?x\r\n"),
        _ => assert!(false)
    }
}

#[test]
fn test_query_parser_empty_edn() {
    let input = ".q {}";
    let cmd = command(&input).expect("Expected query command");
    match cmd {
        Command::Query(edn) => assert_eq!(edn, "{}"),
        _ => assert!(false)
    }
}

#[test]
fn test_query_parser_no_edn() {
    let input = ".q ";
    let err = command(&input).expect_err("Expected an error");
    assert_eq!(err.to_string(), format!("Invalid command {:?}", input));
}

#[test]
fn test_query_parser_invalid_start_char() {
    let input = ".q :find ?x";
    let err = command(&input).expect_err("Expected an error");
    assert_eq!(err.to_string(), format!("Invalid command {:?}", input));
}

#[test]
fn test_transact_parser_complete_edn() {
    let input = ".t [[:db/add \"s\" :db/ident :foo/uuid] [:db/add \"r\" :db/ident :bar/uuid]]";
    let cmd = command(&input).expect("Expected transact command");
    match cmd {
        Command::Transact(edn) => assert_eq!(edn, "[[:db/add \"s\" :db/ident :foo/uuid] [:db/add \"r\" :db/ident :bar/uuid]]"),
        _ => assert!(false)
    }
}

#[test]
fn test_transact_parser_alt_command() {
    let input = ".transact [[:db/add \"s\" :db/ident :foo/uuid] [:db/add \"r\" :db/ident :bar/uuid]]";
    let cmd = command(&input).expect("Expected transact command");
    match cmd {
        Command::Transact(edn) => assert_eq!(edn, "[[:db/add \"s\" :db/ident :foo/uuid] [:db/add \"r\" :db/ident :bar/uuid]]"),
        _ => assert!(false)
    }
}

#[test]
fn test_transact_parser_incomplete_edn() {
    let input = ".t {\r\n";
    let cmd = command(&input).expect("Expected transact command");
    match cmd {
        Command::Transact(edn) => assert_eq!(edn, "{\r\n"),
        _ => assert!(false)
    }
}

#[test]
fn test_transact_parser_empty_edn() {
    let input = ".t {}";
    let cmd = command(&input).expect("Expected transact command");
    match cmd {
        Command::Transact(edn) => assert_eq!(edn, "{}"),
        _ => assert!(false)
    }
}

#[test]
fn test_transact_parser_no_edn() {
    let input = ".t ";
    let err = command(&input).expect_err("Expected an error");
    assert_eq!(err.to_string(), format!("Invalid command {:?}", input));
}

#[test]
fn test_transact_parser_invalid_start_char() {
    let input = ".t :db/add \"s\" :db/ident :foo/uuid";
    let err = command(&input).expect_err("Expected an error");
    assert_eq!(err.to_string(), format!("Invalid command {:?}", input));
}

#[test]
fn test_parser_preceeding_trailing_whitespace() {
    let input = " .close ";
    let cmd = command(&input).expect("Expected close command");
    match cmd {
        Command::Close => assert!(true),
        _ => assert!(false)
    }
}

#[test]
fn test_read_parser_single_arg_no_quotes() {
    let input = ".read arg1";
    let cmd = command(&input).expect("Expected read command");
    match cmd {
        Command::Read(files) => assert_eq!(files, vec!["arg1"]),
        _ => assert!(false)
    }
}

#[test]
fn test_read_parser_single_arg_quotes() {
    let input = r#".read "arg1""#;
    let cmd = command(&input).expect("Expected read command");
    match cmd {
        Command::Read(files) => assert_eq!(files, vec!["arg1"]),
        _ => assert!(false)
    }
}

#[test]
fn test_read_parser_single_arg_file_extension() {
    let input = ".read arg1.edn";
    let cmd = command(&input).expect("Expected read command");
    match cmd {
        Command::Read(files) => assert_eq!(files, vec!["arg1.edn"]),
        _ => assert!(false)
    }
}

#[test]
fn test_read_parser_single_arg_file_path() {
    let input = ".read ~/path/to/data/arg1.edn";
    let cmd = command(&input).expect("Expected read command");
    match cmd {
        Command::Read(files) => assert_eq!(files, vec!["~/path/to/data/arg1.edn"]),
        _ => assert!(false)
    }
}

#[test]
fn test_read_parser_single_arg_file_path_quotes() {
    let input = r#".read "~/path/to/data/arg1.edn""#;
    let cmd = command(&input).expect("Expected read command");
    match cmd {
        Command::Read(files) => assert_eq!(files, vec!["~/path/to/data/arg1.edn"]),
        _ => assert!(false)
    }
}
#[test]
fn test_read_parser_single_arg_bad_quotes() {
    let input = r#".read "~/path/to/data/arg1.edn"#;
    let err = command(&input).expect_err("Expected an error");
    assert_eq!(err.to_string(), "Unrecognized argument \"~/path/to/data/arg1.edn");
}

#[test]
fn test_read_parser_multiple_args() {
    let input = ".read ~/path/to/data/arg1.edn ~/path/to/schema/arg2.edn";
    let cmd = command(&input).expect("Expected read command");
    match cmd {
        Command::Read(files) => assert_eq!(files, vec!["~/path/to/data/arg1.edn", "~/path/to/schema/arg2.edn"]),
        _ => assert!(false)
    }
}

#[test]
fn test_read_parser_multiple_args_mix_quotes() {
    let input = r#".read "~/path/to/data/arg1.edn" '~/path/to/schema/arg2.edn'"#;
    let cmd = command(&input).expect("Expected read command");
    match cmd {
        Command::Read(files) => assert_eq!(files, vec!["~/path/to/data/arg1.edn", "~/path/to/schema/arg2.edn"]),
        _ => assert!(false)
    }
}

#[test]
fn test_read_parser_no_args() {
    let input = ".read";
    let err = command(&input).expect_err("Expected an error");
    assert_eq!(err.to_string(), "Missing required argument");
}

#[test]
fn test_command_parser_no_dot() {
    let input = "help command1 command2";
    let err = command(&input).expect_err("Expected an error");
    assert_eq!(err.to_string(), format!("Invalid command {:?}", input));
}

#[test]
fn test_command_parser_invalid_cmd() {
    let input = ".foo command1";
    let err = command(&input).expect_err("Expected an error");
    assert_eq!(err.to_string(), format!("Invalid command {:?}", input));
}

#[test]
fn commands_are_shown_with_their_long_names() {
    assert_eq!(Command::Query("[:find ?x]".to_string()).output(), ".query [:find ?x]");
    assert_eq!(Command::Transact("[]".to_string()).output(), ".transact []");
    assert_eq!(Command::Help(vec!["a".to_string(), "b\"c".to_string()]).output(), ".help [\"a\", \"b\\\"c\"]");
    assert_eq!(Command::Help(vec![]).output(), ".help []");
    assert_eq!(Command::Open("my.db".to_string()).output(), ".open my.db");
    assert_eq!(Command::Close.output(), ".close");
    assert_eq!(Command::Read(vec!["f.edn".to_string()]).output(), ".read [\"f.edn\"]");
}

#[test]
fn commands_are_complete_once_their_argument_reads() {
    assert_eq!(Command::Query("[:find ?x :where [?x _ _]]".to_string()).is_complete().0, true);
    assert_eq!(Command::Query("[:find ?x :where [?x _ _]]".to_string()).is_complete().1, None);
    let (complete, error) = Command::Query("[:find ?x".to_string()).is_complete();
    assert!(!complete);
    assert!(error.is_some());
    assert!(!Command::Transact("{".to_string()).is_complete().0);
    assert!(Command::Transact("{}".to_string()).is_complete().0);
    assert_eq!(Command::Help(vec![]).is_complete(), (true, None));
    assert_eq!(Command::Open("x".to_string()).is_complete(), (true, None));
    assert_eq!(Command::Close.is_complete(), (true, None));
    assert_eq!(Command::Read(vec![]).is_complete(), (true, None));
}

#[test]
fn odd_command_lines() {
    assert_eq!(command(".helpme now"), Ok(Command::Help(vec!["me".to_string(), "now".to_string()])));
    assert_eq!(command("\t .q{:find ?x}"), Ok(Command::Query("{:find ?x}".to_string())));
    assert_eq!(command(".closed").unwrap_err().to_string(), "Unrecognized argument \"d\"");
    assert_eq!(command(".read 'a b'").unwrap_err().to_string(), "Unrecognized argument 'a");
    assert_eq!(command(".read \"a\"b\"").unwrap(), Command::Read(vec!["ab".to_string()]));
    assert_eq!(command("").unwrap_err().to_string(), "Invalid command \"\"");
    assert_eq!(command(".").unwrap_err().to_string(), "Invalid command \".\"");
    assert_eq!(command(".queryx [").unwrap_err().to_string(), "Invalid command \".queryx [\"");
}
