use ranni::cli::{Cli, Commands};
use ranni::errors::ErrorReason;
use ranni::parser::parse;
use ranni::run_main;

#[test]
fn cli_carries_the_chosen_subcommand() {
    let cli = Cli { command: Some(Commands::Compile { file: "lib/main.rni".to_string() }) };
    match cli.command {
        Some(Commands::Compile { file }) => assert_eq!(file, "lib/main.rni"),
        _ => panic!("wrong subcommand"),
    }
    let none = Cli { command: None };
    assert_eq!(none.command, None);
    assert_eq!(Commands::Run {}, Commands::Run {});
    assert_ne!(Commands::Lsp {}, Commands::Run {});
}

#[test]
fn run_subcommand_has_no_behavior_yet() {
    run_main();
}

#[test]
fn binding_without_a_name_is_an_error() {
    let errs = parse("let 5").unwrap_err();
    assert_eq!(errs[0].reason, ErrorReason::ExpectedIdent);
}
