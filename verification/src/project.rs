//! What a project root holds that the tool works with.

use vstd::prelude::*;
use crate::errors::CommandError;
use crate::paths::{join, join_path};
use crate::text::opt_view;

verus! {

/// Where the viewer lies below a project root.
pub open spec fn viewer_subdir() -> Seq<char> {
    "fab/outora-library/viewer"@
}

/// Where the development kernel lies below a project root.
pub open spec fn dev_kernel_subdir() -> Seq<char> {
    "dev-kernel"@
}

/// The directories of a project that may or may not be there.
pub struct ProjectDirs {
    pub viewer_dir: String,
    pub dev_kernel_dir: String,
}

/// What is known of a project.
pub struct ProjectInfo {
    pub root: String,
    /// The viewer directory, if there is one.
    pub viewer_dir: Option<String>,
    /// The directory of the development kernel, if there is one.
    pub dev_kernel_dir: Option<String>,
}

/// What a `ProjectInfo` holds.
pub struct ProjectInfoView {
    pub root: Seq<char>,
    pub viewer_dir: Option<Seq<char>>,
    pub dev_kernel_dir: Option<Seq<char>>,
}

impl View for ProjectInfo {
    type V = ProjectInfoView;

    open spec fn view(&self) -> ProjectInfoView {
        ProjectInfoView {
            root: self.root@,
            viewer_dir: opt_view(self.viewer_dir),
            dev_kernel_dir: opt_view(self.dev_kernel_dir),
        }
    }
}

/// The directories to look for below `root`.
pub fn project_dirs(root: &str) -> (dirs: ProjectDirs)
    ensures
        dirs.viewer_dir@ == join_path(root@, viewer_subdir()),
        dirs.dev_kernel_dir@ == join_path(root@, dev_kernel_subdir()),
{
    ProjectDirs {
        viewer_dir: join(root, "fab/outora-library/viewer"),
        dev_kernel_dir: join(root, "dev-kernel"),
    }
}

/// What is known of the project at `root`, given which of its directories
/// exist.
pub open spec fn project_info(
    root: Seq<char>,
    viewer_is_dir: bool,
    dev_kernel_is_dir: bool,
) -> ProjectInfoView {
    ProjectInfoView {
        root,
        viewer_dir: if viewer_is_dir {
            Some(join_path(root, viewer_subdir()))
        } else {
            None
        },
        dev_kernel_dir: if dev_kernel_is_dir {
            Some(join_path(root, dev_kernel_subdir()))
        } else {
            None
        },
    }
}

/// Describes the project at `root`.
///
/// Fails where `root` is not a directory; otherwise names the viewer and
/// the development kernel directories as far as they exist.
pub fn detect_project(
    root: String,
    root_is_dir: bool,
    viewer_is_dir: bool,
    dev_kernel_is_dir: bool,
) -> (r: Result<ProjectInfo, CommandError>)
    ensures
        match r {
            Ok(info) => root_is_dir && info@ == project_info(
                root@,
                viewer_is_dir,
                dev_kernel_is_dir,
            ),
            Err(e) => !root_is_dir && (e matches CommandError::NotADirectory(given) && given@
                == root@),
        },
{
    if !root_is_dir {
        return Err(CommandError::NotADirectory(root));
    }
    let dirs = project_dirs(root.as_str());
    Ok(
        ProjectInfo {
            root,
            viewer_dir: if viewer_is_dir {
                Some(dirs.viewer_dir)
            } else {
                None
            },
            dev_kernel_dir: if dev_kernel_is_dir {
                Some(dirs.dev_kernel_dir)
            } else {
                None
            },
        },
    )
}

} // verus!
