use hlvm::repl::REPL;
use hlvm::repl::ReplCommand;
use hlvm::repl::classify_command;

#[test]
fn test_new_repl_is_empty() {
    let repl = REPL::new();
    assert_eq!(repl.command_buffer.len(), 0);
    assert_eq!(repl.vm.registers[0], 0);
    assert_eq!(repl.vm.pc, 0);
}

#[test]
fn test_record_command_keeps_history() {
    let mut repl = REPL::new();
    repl.record_command(String::from(".registers"));
    repl.record_command(String::from(".quit"));
    assert_eq!(repl.command_buffer.len(), 2);
    assert_eq!(repl.command_buffer[0], ".registers");
    assert_eq!(repl.command_buffer[1], ".quit");
}

#[test]
fn test_classify_known_commands() {
    assert_eq!(classify_command(b".quit"), ReplCommand::Quit);
    assert_eq!(classify_command(b".history"), ReplCommand::History);
    assert_eq!(classify_command(b".program"), ReplCommand::Program);
    assert_eq!(classify_command(b".registers"), ReplCommand::Registers);
}

#[test]
fn test_classify_unknown_commands() {
    assert_eq!(classify_command(b""), ReplCommand::Unknown);
    assert_eq!(classify_command(b".quit "), ReplCommand::Unknown);
    assert_eq!(classify_command(b"quit"), ReplCommand::Unknown);
    assert_eq!(classify_command(b".load"), ReplCommand::Unknown);
}
