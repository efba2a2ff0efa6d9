//! `page create`: a dry run unless `--execute` is given.
use vstd::prelude::*;
use crate::client::{CreatePageRequest, same_option};
use crate::commands::CommandOutput;
use crate::commands::page_body::BodyRepresentation;
use crate::content::{texts_view, ConvertedContent};
use crate::dry_run::{create_dry_run, create_target_value, dry_run_value, option_view, WriteTarget};
use crate::json::JsonValue;
use crate::text::owned;

verus! {

broadcast use vstd::string::group_string_axioms;

/// The stable name of the command.
pub const COMMAND: &'static str = "page.create";

/// The flags of `page create`.
#[derive(Debug)]
pub struct PageCreateArgs {
    pub space_key: String,
    pub title: String,
    pub body_file: String,
    pub body_representation: Option<BodyRepresentation>,
    pub parent_id: Option<String>,
    pub execute: bool,
}

/// What `page create` does once the body is converted and the space id is
/// known: report a dry run, or send the create request.
#[derive(Debug)]
pub enum PageCreatePlan {
    DryRun(CommandOutput),
    Execute(CreatePageRequest),
}

/// The dry run of creating `converted` as page `title` in the space.
pub open spec fn create_dry_run_value(
    space_key: Seq<char>,
    space_id: Seq<char>,
    parent_id: Option<Seq<char>>,
    title: Seq<char>,
    converted: ConvertedContent,
) -> JsonValue {
    dry_run_value(
        "POST"@,
        "/api/v2/pages"@,
        create_target_value(space_key, space_id, parent_id),
        title,
        converted.markdown_bytes as nat,
        converted.storage_html_bytes as nat,
        texts_view(converted.headings@),
    )
}

/// Without `--execute` the result is a dry run and no write is requested;
/// with it, the create request for the converted body.
pub open spec fn is_create_plan(
    args: PageCreateArgs,
    space_id: Seq<char>,
    converted: ConvertedContent,
    plan: PageCreatePlan,
) -> bool {
    if !args.execute {
        plan matches PageCreatePlan::DryRun(o) && o.command@ == "page.create"@ && o.dry_run
            && o.text is None && o.data@ == create_dry_run_value(
            args.space_key@,
            space_id,
            option_view(args.parent_id),
            args.title@,
            converted,
        )
    } else {
        plan matches PageCreatePlan::Execute(r) && r.space_id@ == space_id && r.title@
            == args.title@ && same_option(r.parent_id, args.parent_id) && r.storage_html@
            == converted.storage_html@
    }
}

/// Decides what `page create` does with the converted body and the id of
/// the target space.
pub fn plan_page_create(args: PageCreateArgs, space_id: String, converted: ConvertedContent) -> (plan: PageCreatePlan)
    ensures
        is_create_plan(args, space_id@, converted, plan),
{
    let ghost a = args;
    let ghost sid = space_id@;
    let ghost c = converted;
    if !args.execute {
        let data = create_dry_run(
            "POST",
            owned("/api/v2/pages"),
            WriteTarget::Create {
                space_key: args.space_key,
                space_id,
                parent_id: args.parent_id,
            },
            args.title.as_str(),
            &converted,
        );
        return PageCreatePlan::DryRun(CommandOutput::new(COMMAND, true, data));
    }
    PageCreatePlan::Execute(
        CreatePageRequest {
            space_id,
            title: args.title,
            parent_id: args.parent_id,
            storage_html: converted.storage_html,
        },
    )
}

/// Safe writes: without `--execute`, `page create` never produces a write
/// request, only a dry run.
pub proof fn lemma_create_without_execute_is_dry_run(
    args: PageCreateArgs,
    space_id: Seq<char>,
    converted: ConvertedContent,
    plan: PageCreatePlan,
)
    requires
        is_create_plan(args, space_id, converted, plan),
        !args.execute,
    ensures
        plan is DryRun,
        plan->DryRun_0.dry_run,
{
}


/// With `--execute` the create sends exactly the converted body of the body
/// file, under the given title and parent, to the resolved space.
pub proof fn lemma_create_sends_the_converted_body(
    args: PageCreateArgs,
    space_id: Seq<char>,
    converted: ConvertedContent,
    plan: PageCreatePlan,
)
    requires
        is_create_plan(args, space_id, converted, plan),
        args.execute,
    ensures
        plan matches PageCreatePlan::Execute(r) && r.storage_html@ == converted.storage_html@
            && r.space_id@ == space_id && r.title@ == args.title@ && same_option(
            r.parent_id,
            args.parent_id,
        ),
{
}

} // verus!
