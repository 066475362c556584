//! The command model of the tracker's command-line front end.
//!
//! These are plain data types: a front end parses its arguments into them
//! and dispatches on them.  Paths are plain strings and timestamps seconds
//! since the Unix epoch, as everywhere in the library.

use vstd::prelude::*;

verus! {

/// A parsed invocation: one command, and optionally the data file to use.
pub struct Arguments {
    pub command: Command,
    pub data_file: Option<String>,
}

/// The top-level commands.
pub enum Command {
    Add(AddCommand),
    Cancel(CancelCommand),
    Count(CountCommandArgs),
    Delete(DeleteCommand),
    Describe(DescribeCommand),
    Generate(GenerateCommand),
    List(ListCommand),
    Rename(RenameCommand),
    Status(StatusArgs),
    Start(StartCommand),
    Stop(StopCommand),
    Update(UpdateCommand),
}

/// Adds a project, activity type, or repository.
pub enum AddCommand {
    Project(AddProjectArgs),
    ActivityType(AddActivityTypeArgs),
    Repo(AddRepoArgs),
}

/// The name for a new project, and optionally a repository path for it.
pub struct AddProjectArgs {
    pub name: String,
    pub path: Option<String>,
}

/// The name and optional description for a new activity type.
pub struct AddActivityTypeArgs {
    pub name: String,
    pub description: Option<String>,
}

/// The owning project and path for a new repository.
pub struct AddRepoArgs {
    pub project: String,
    pub path: String,
}

/// The project whose repositories get a fresh line count.
pub struct CountCommandArgs {
    pub project: String,
}

/// Cancels a running activity.
pub enum CancelCommand {
    Activity(CancelActivityTypeArgs),
}

/// The project with a running activity to cancel.
pub struct CancelActivityTypeArgs {
    pub project: String,
}

/// Deletes a project, activity, activity type, count, or repository.
pub enum DeleteCommand {
    Project(DeleteProjectArgs),
    Activity(DeleteActivityArgs),
    ActivityType(DeleteActivityTypeArgs),
    Count(DeleteCountArgs),
    Repo(DeleteRepoArgs),
}

/// The project to delete.
pub struct DeleteProjectArgs {
    pub name: String,
}

/// The activity to delete.
pub struct DeleteActivityArgs {
    pub id: u64,
}

/// The activity type to delete.
pub struct DeleteActivityTypeArgs {
    pub name: String,
}

/// The count to delete.
pub struct DeleteCountArgs {
    pub id: u64,
}

/// The repository to delete (from the tracker only).
pub struct DeleteRepoArgs {
    pub path: String,
}

/// Describes a project, activity, or count.
pub enum DescribeCommand {
    Project(DescribeProjectArgs),
    Activity(DescribeActivityArgs),
    Count(DescribeCountArgs),
}

/// The project to describe.
pub struct DescribeProjectArgs {
    pub name: String,
}

/// The activity to describe.
pub struct DescribeActivityArgs {
    pub id: u64,
}

/// The count to describe.
pub struct DescribeCountArgs {
    pub id: u64,
}

/// Generates a text or structured report for a project.
pub enum GenerateCommand {
    Report(GenerateArgs),
    Json(GenerateArgs),
}

/// The project to report on, and an optional time window (seconds since
/// the Unix epoch).
pub struct GenerateArgs {
    pub name: String,
    pub start: Option<u64>,
    pub end: Option<u64>,
}

/// Lists projects, activities, activity types, counts, or repositories.
pub enum ListCommand {
    Projects(ListProjectArgs),
    Activities(ListActivityArgs),
    ActivityTypes(ListActivityTypeArgs),
    Counts(ListCountArgs),
    Repos(ListRepoArgs),
}

/// Whether to list the id numbers too.
pub struct ListProjectArgs {
    pub verbose: bool,
}

/// The project whose activities to list.
pub struct ListActivityArgs {
    pub verbose: bool,
    pub project: String,
}

/// Whether to list the id numbers too.
pub struct ListActivityTypeArgs {
    pub verbose: bool,
}

/// The project whose counts to list.
pub struct ListCountArgs {
    pub verbose: bool,
    pub project: String,
}

/// The project whose repositories to list.
pub struct ListRepoArgs {
    pub verbose: bool,
    pub project: String,
}

/// Renames a project or activity type.
pub enum RenameCommand {
    Project(RenameProjectArgs),
    ActivityType(RenameActivityTypeArgs),
}

/// The current and the new project name.
pub struct RenameProjectArgs {
    pub old_name: String,
    pub new_name: String,
}

/// The current and the new activity-type name.
pub struct RenameActivityTypeArgs {
    pub old_name: String,
    pub new_name: String,
}

/// The project whose status to show, or all projects when absent.
pub struct StatusArgs {
    pub name: Option<String>,
}

/// Starts recording an activity.
pub enum StartCommand {
    Activity(StartActivityArgs),
}

/// The project, activity type, and optional description of the session to
/// start.
pub struct StartActivityArgs {
    pub project: String,
    pub activity_type: String,
    pub description: Option<String>,
}

/// Stops recording an activity.
pub enum StopCommand {
    Activity(StopActivityArgs),
}

/// The project whose running activity to stop, an optional description to
/// set, and whether to skip the line count taken at the end.
pub struct StopActivityArgs {
    pub project: String,
    pub description: Option<String>,
    pub no_count: bool,
}

/// Updates an activity, activity type, or repository.
pub enum UpdateCommand {
    Activity(UpdateActivityArgs),
    ActivityType(UpdateActivityTypeArgs),
    Repo(UpdateRepoArgs),
}

/// Which field of an activity to update.
pub struct UpdateActivityArgs {
    pub command: UpdateActivityCommand,
}

/// The fields of an activity that can be updated.
pub enum UpdateActivityCommand {
    End(UpdateActivityEndArgs),
    ActivityType(UpdateActivityActivityTypeArgs),
    Description(UpdateActivityDescriptionArgs),
    Project(UpdateActivityProjectArgs),
}

/// The activity and its new description (absent to clear it).
pub struct UpdateActivityDescriptionArgs {
    pub id: u64,
    pub description: Option<String>,
}

/// The activity and its new end time (seconds since the Unix epoch).
pub struct UpdateActivityEndArgs {
    pub id: u64,
    pub end: u64,
}

/// The activity and the name of its new activity type.
pub struct UpdateActivityActivityTypeArgs {
    pub id: u64,
    pub atype: String,
}

/// The activity and the name of its new project.
pub struct UpdateActivityProjectArgs {
    pub id: u64,
    pub project: String,
}

/// The activity type and its new description (absent to clear it).
pub struct UpdateActivityTypeArgs {
    pub name: String,
    pub description: Option<String>,
}

/// The current and the new repository path.
pub struct UpdateRepoArgs {
    pub old_path: String,
    pub new_path: String,
}

} // verus!
