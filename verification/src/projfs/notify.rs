//! What a change that the system tells of means to Lore's dirty tracking.

use crate::vfs::fuse::{report_views, DirtyReport, DirtyReportView, ExplicitDirty};
use vstd::prelude::*;

verus! {

/// A change to a virtualized directory that the system tells of once it is made.
#[derive(Debug, Clone, Copy, PartialEq, Eq, Structural)]
pub enum Notification {
    /// A file or directory was made.
    Created,
    /// A file was overwritten, or closed after it was written to.
    Modified,
    /// A file or directory was deleted, and the last handle to it was closed.
    Deleted,
    /// A file or directory was renamed.
    Renamed,
}

/// What is reported of a change. A directory is not itself tracked when it is made; a file that the
/// projection does not hold stays an add when it is written to; and a rename is a delete of the
/// source and an add of the destination, where an empty path lies outside the directory.
pub open spec fn change_reports(
    kind: Notification,
    is_directory: bool,
    projected: bool,
    relative: Seq<char>,
    destination: Seq<char>,
) -> Seq<DirtyReportView> {
    match kind {
        Notification::Created => if is_directory {
            Seq::empty()
        } else {
            seq![DirtyReportView { relative, action: ExplicitDirty::Add }]
        },
        Notification::Modified => if is_directory {
            Seq::empty()
        } else if projected {
            seq![DirtyReportView { relative, action: ExplicitDirty::Modify }]
        } else {
            seq![DirtyReportView { relative, action: ExplicitDirty::Add }]
        },
        Notification::Deleted => seq![
            DirtyReportView { relative, action: ExplicitDirty::Delete },
        ],
        Notification::Renamed => (if relative.len() > 0 {
            seq![DirtyReportView { relative, action: ExplicitDirty::Delete }]
        } else {
            Seq::empty()
        }) + (if destination.len() > 0 {
            seq![DirtyReportView { relative: destination, action: ExplicitDirty::Add }]
        } else {
            Seq::empty()
        }),
    }
}

/// Settle what is reported of a change. `projected` says whether the projection holds the path, and
/// `destination` is where a renamed entry went.
pub fn notified(
    kind: Notification,
    is_directory: bool,
    projected: bool,
    relative: &str,
    destination: &str,
) -> (r: Vec<DirtyReport>)
    ensures
        report_views(r@) == change_reports(
            kind,
            is_directory,
            projected,
            relative@,
            destination@,
        ),
{
    let mut reports: Vec<DirtyReport> = Vec::new();
    let action = match kind {
        Notification::Created => if is_directory {
            None
        } else {
            Some(ExplicitDirty::Add)
        },
        Notification::Modified => if is_directory {
            None
        } else if projected {
            Some(ExplicitDirty::Modify)
        } else {
            Some(ExplicitDirty::Add)
        },
        Notification::Deleted => Some(ExplicitDirty::Delete),
        Notification::Renamed => if relative.is_empty() {
            None
        } else {
            Some(ExplicitDirty::Delete)
        },
    };
    if let Some(action) = action {
        reports.push(DirtyReport { relative: relative.to_owned(), action });
    }
    if kind == Notification::Renamed && !destination.is_empty() {
        reports.push(
            DirtyReport { relative: destination.to_owned(), action: ExplicitDirty::Add },
        );
    }
    assert(report_views(reports@) =~= change_reports(
        kind,
        is_directory,
        projected,
        relative@,
        destination@,
    ));
    reports
}

/// A file that is made and then written to is reported as an add throughout, as long as the
/// projection does not hold it, and one that it holds is reported as modified.
pub proof fn law_new_file_is_an_add(relative: Seq<char>, destination: Seq<char>)
    ensures
        change_reports(Notification::Modified, false, false, relative, destination)
            == change_reports(Notification::Created, false, false, relative, destination),
        change_reports(Notification::Modified, false, true, relative, destination)
            == seq![DirtyReportView { relative, action: ExplicitDirty::Modify }],
{
}

/// A deletion is reported as one; a file that is made is an add; a write to a file that the
/// projection holds is a modification; a rename is a delete of its source and an add of its
/// destination, of which only those that lie in the directory are reported; and no directory is
/// reported for being made.
pub proof fn law_changes_are_reported_as_what_they_are(
    is_directory: bool,
    projected: bool,
    relative: Seq<char>,
    destination: Seq<char>,
)
    ensures
        change_reports(Notification::Deleted, is_directory, projected, relative, destination)
            == seq![DirtyReportView { relative, action: ExplicitDirty::Delete }],
        change_reports(Notification::Created, false, projected, relative, destination) == seq![
            DirtyReportView { relative, action: ExplicitDirty::Add },
        ],
        change_reports(Notification::Created, true, projected, relative, destination).len() == 0,
        change_reports(Notification::Modified, true, projected, relative, destination).len() == 0,
        change_reports(Notification::Modified, false, projected, relative, destination) == seq![
            DirtyReportView {
                relative,
                action: if projected {
                    ExplicitDirty::Modify
                } else {
                    ExplicitDirty::Add
                },
            },
        ],
        relative.len() > 0 && destination.len() > 0 ==> change_reports(
            Notification::Renamed,
            is_directory,
            projected,
            relative,
            destination,
        ) == seq![
            DirtyReportView { relative, action: ExplicitDirty::Delete },
            DirtyReportView { relative: destination, action: ExplicitDirty::Add },
        ],
        relative.len() > 0 && destination.len() == 0 ==> change_reports(
            Notification::Renamed,
            is_directory,
            projected,
            relative,
            destination,
        ) == seq![DirtyReportView { relative, action: ExplicitDirty::Delete }],
        relative.len() == 0 && destination.len() > 0 ==> change_reports(
            Notification::Renamed,
            is_directory,
            projected,
            relative,
            destination,
        ) == seq![DirtyReportView { relative: destination, action: ExplicitDirty::Add }],
        relative.len() == 0 && destination.len() == 0 ==> change_reports(
            Notification::Renamed,
            is_directory,
            projected,
            relative,
            destination,
        ).len() == 0,
{
    let from = seq![DirtyReportView { relative, action: ExplicitDirty::Delete }];
    let to = seq![DirtyReportView { relative: destination, action: ExplicitDirty::Add }];
    assert(from + to =~= seq![from[0], to[0]]);
    assert(from + Seq::<DirtyReportView>::empty() =~= from);
    assert(Seq::<DirtyReportView>::empty() + to =~= to);
}

} // verus!
