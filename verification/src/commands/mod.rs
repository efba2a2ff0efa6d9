//! The commands: their arguments, outputs, and the decisions each makes.
use vstd::prelude::*;
use crate::error::AppError;
use crate::json::{Json, JsonValue};
use crate::commands::config_init::ConfigInitArgs;
use crate::commands::page_create::PageCreateArgs;
use crate::commands::page_get::PageGetArgs;
use crate::commands::page_update::PageUpdateArgs;
use crate::commands::search::SearchArgs;
use crate::commands::space_list::SpaceListArgs;

pub mod config_init;
pub mod page_body;
pub mod page_create;
pub mod page_get;
pub mod page_update;
pub mod search;
pub mod space_list;

verus! {

/// What a successful command returns.
#[derive(Debug)]
pub struct CommandOutput {
    pub command: &'static str,
    pub dry_run: bool,
    pub data: Json,
    /// Plain text printed instead of the JSON envelope.
    pub text: Option<String>,
}

impl CommandOutput {
    /// JSON output of `command`.
    pub fn new(command: &'static str, dry_run: bool, data: Json) -> (o: CommandOutput)
        ensures
            o.command == command,
            o.dry_run == dry_run,
            o.data == data,
            o.text is None,
    {
        CommandOutput { command, dry_run, data, text: None }
    }

    /// Text output of `command`.
    pub fn text(command: &'static str, message: String) -> (o: CommandOutput)
        ensures
            o.command == command,
            !o.dry_run,
            o.data@ == JsonValue::Null,
            o.text matches Some(t) && t@ == message@,
    {
        CommandOutput { command, dry_run: false, data: Json::Null, text: Some(message) }
    }
}

/// A failed command: its stable name and the error.
#[derive(Debug)]
pub struct CommandFailure {
    pub command: &'static str,
    pub error: AppError,
}

impl CommandFailure {
    pub fn new(command: &'static str, error: AppError) -> (f: CommandFailure)
        ensures
            f.command == command,
            f.error == error,
    {
        CommandFailure { command, error }
    }
}


/// The top-level commands.
#[derive(Debug)]
pub enum Commands {
    Config { command: ConfigCommand },
    Space { command: SpaceCommand },
    Search(SearchArgs),
    Page { command: PageCommand },
}

/// `config` subcommands.
#[derive(Debug)]
pub enum ConfigCommand {
    Init(ConfigInitArgs),
}

/// `space` subcommands.
#[derive(Debug)]
pub enum SpaceCommand {
    List(SpaceListArgs),
}

/// `page` subcommands.
#[derive(Debug)]
pub enum PageCommand {
    Get(PageGetArgs),
    Create(PageCreateArgs),
    Update(PageUpdateArgs),
}

/// The stable, dot-separated name that a command's envelope reports.
pub open spec fn command_name_of(command: Commands) -> Seq<char> {
    match command {
        Commands::Config { .. } => "config.init"@,
        Commands::Space { .. } => "space.list"@,
        Commands::Search(_) => "search"@,
        Commands::Page { command } => match command {
            PageCommand::Get(_) => "page.get"@,
            PageCommand::Create(_) => "page.create"@,
            PageCommand::Update(_) => "page.update"@,
        },
    }
}

/// The stable name of `command`.
pub fn command_name(command: &Commands) -> (r: &'static str)
    ensures
        r@ == command_name_of(*command),
{
    match command {
        Commands::Config { .. } => config_init::COMMAND,
        Commands::Space { .. } => space_list::COMMAND,
        Commands::Search(_) => search::COMMAND,
        Commands::Page { command } => match command {
            PageCommand::Get(_) => page_get::COMMAND,
            PageCommand::Create(_) => page_create::COMMAND,
            PageCommand::Update(_) => page_update::COMMAND,
        },
    }
}

} // verus!
