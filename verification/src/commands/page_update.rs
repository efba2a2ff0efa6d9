//! `page update`: reads the current version, then a dry run unless
//! `--execute` is given, in which case the next version is written.
use vstd::prelude::*;
use crate::client::{page_path, Page, UpdatePageRequest};
use crate::commands::CommandOutput;
use crate::commands::page_body::BodyRepresentation;
use crate::content::{texts_view, ConvertedContent};
use crate::dry_run::{create_dry_run, dry_run_value, update_target_value, WriteTarget};
use crate::error::{AppError, ErrorCode};
use crate::json::JsonValue;
use crate::text::owned;

verus! {

broadcast use vstd::string::group_string_axioms;

/// The stable name of the command.
pub const COMMAND: &'static str = "page.update";

/// The flags of `page update`.
#[derive(Debug)]
pub struct PageUpdateArgs {
    pub page_id: String,
    pub title: String,
    pub body_file: String,
    pub body_representation: Option<BodyRepresentation>,
    pub execute: bool,
}

/// What `page update` does once the body is converted and the current
/// version is known: report a dry run, or send the update request.
#[derive(Debug)]
pub enum PageUpdatePlan {
    DryRun(CommandOutput),
    Execute(UpdatePageRequest),
}

pub open spec fn missing_version_message() -> Seq<char> {
    "Confluence page response did not include a version number."@
}

/// The version number of a fetched page, which an update needs.
pub fn current_version(page: &Page) -> (r: Result<u64, AppError>)
    ensures
        match page.version {
            Some(v) => r == Ok::<u64, AppError>(v.number),
            None => r matches Err(e) && e.code == ErrorCode::ConfluenceValidationFailed
                && e.message@ == missing_version_message(),
        },
{
    match page.version {
        Some(v) => Ok(v.number),
        None => Err(
            AppError::new(
                ErrorCode::ConfluenceValidationFailed,
                owned("Confluence page response did not include a version number."),
            ),
        ),
    }
}

/// The dry run of updating page `page_id` from `current_version`.
pub open spec fn update_dry_run_value(
    page_id: Seq<char>,
    current_version: nat,
    title: Seq<char>,
    converted: ConvertedContent,
) -> JsonValue {
    dry_run_value(
        "PUT"@,
        "/api/v2/pages/"@ + page_id,
        update_target_value(page_id, current_version, current_version + 1),
        title,
        converted.markdown_bytes as nat,
        converted.storage_html_bytes as nat,
        texts_view(converted.headings@),
    )
}

/// Without `--execute` the result is a dry run and no write is requested;
/// with it, the update request for the next version.
pub open spec fn is_update_plan(
    args: PageUpdateArgs,
    current_version: u64,
    converted: ConvertedContent,
    plan: PageUpdatePlan,
) -> bool {
    if !args.execute {
        plan matches PageUpdatePlan::DryRun(o) && o.command@ == "page.update"@ && o.dry_run
            && o.text is None && o.data@ == update_dry_run_value(
            args.page_id@,
            current_version as nat,
            args.title@,
            converted,
        )
    } else {
        plan matches PageUpdatePlan::Execute(r) && r.page_id@ == args.page_id@ && r.title@
            == args.title@ && r.next_version == current_version + 1 && r.storage_html@
            == converted.storage_html@
    }
}

/// Decides what `page update` does with the converted body and the page's
/// current version.
pub fn plan_page_update(args: PageUpdateArgs, current_version: u64, converted: ConvertedContent) -> (plan: PageUpdatePlan)
    requires
        current_version < u64::MAX,
    ensures
        is_update_plan(args, current_version, converted, plan),
{
    let next_version = current_version + 1;
    if !args.execute {
        let endpoint = page_path(args.page_id.as_str());
        let data = create_dry_run(
            "PUT",
            endpoint,
            WriteTarget::Update { page_id: args.page_id, current_version, next_version },
            args.title.as_str(),
            &converted,
        );
        return PageUpdatePlan::DryRun(CommandOutput::new(COMMAND, true, data));
    }
    PageUpdatePlan::Execute(
        UpdatePageRequest {
            page_id: args.page_id,
            title: args.title,
            next_version,
            storage_html: converted.storage_html,
        },
    )
}

/// An update writes the version after the one it read, so a concurrent
/// change makes Confluence refuse it instead of being overwritten.
pub proof fn lemma_update_writes_next_version(
    args: PageUpdateArgs,
    current_version: u64,
    converted: ConvertedContent,
    plan: PageUpdatePlan,
)
    requires
        is_update_plan(args, current_version, converted, plan),
        args.execute,
    ensures
        plan matches PageUpdatePlan::Execute(r) && r.next_version == current_version + 1,
{
}

/// Safe writes: without `--execute`, `page update` never produces a write
/// request, only a dry run.
pub proof fn lemma_update_without_execute_is_dry_run(
    args: PageUpdateArgs,
    current_version: u64,
    converted: ConvertedContent,
    plan: PageUpdatePlan,
)
    requires
        is_update_plan(args, current_version, converted, plan),
        !args.execute,
    ensures
        plan is DryRun,
        plan->DryRun_0.dry_run,
{
}


/// With `--execute` the update writes exactly the converted body of the body
/// file, under the given title, to the given page.
pub proof fn lemma_update_writes_the_converted_body(
    args: PageUpdateArgs,
    current_version: u64,
    converted: ConvertedContent,
    plan: PageUpdatePlan,
)
    requires
        is_update_plan(args, current_version, converted, plan),
        args.execute,
    ensures
        plan matches PageUpdatePlan::Execute(r) && r.storage_html@ == converted.storage_html@
            && r.page_id@ == args.page_id@ && r.title@ == args.title@,
{
}

} // verus!
