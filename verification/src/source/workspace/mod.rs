//! The workspace: the sibling packages of a project.

use crate::manifest::target::TargetKind;
use crate::manifest::Manifest;
use crate::source::specifiers::{VersionTypeOrReq, WorkspaceDependencySpecifier};
use vstd::prelude::*;

verus! {

/// A member of the workspace.
#[derive(Debug)]
pub struct WorkspaceMember {
    /// The directory of the member, relative to the workspace.
    pub path: String,
    /// The manifest of the member.
    pub manifest: Manifest,
}

/// Whether `member` is what a workspace dependency means for a consumer of
/// kind `consumer`: it has the name; its version is admitted, where the
/// dependency brings a requirement of its own; and it is built for the
/// kind that is asked for or, where none is, for one that the consumer
/// may depend on.
pub open spec fn member_satisfies(
    member: WorkspaceMember,
    specifier: WorkspaceDependencySpecifier,
    consumer: TargetKind,
) -> bool {
    &&& member.manifest.name@ == specifier.name@
    &&& match specifier.version {
        VersionTypeOrReq::Req(req) => req.admits(member.manifest.version@),
        VersionTypeOrReq::VersionType(_) => true,
    }
    &&& match specifier.target {
        Some(kind) => member.manifest.target.kind_spec() == kind,
        None => consumer.compatible_spec(member.manifest.target.kind_spec()),
    }
}

/// The test that keeps the positions of the members that satisfy a
/// dependency.
pub open spec fn satisfying(
    members: Seq<WorkspaceMember>,
    specifier: WorkspaceDependencySpecifier,
    consumer: TargetKind,
) -> spec_fn(usize) -> bool {
    |at: usize| at < members.len() && member_satisfies(members[at as int], specifier, consumer)
}

/// The positions below `upto`, in order.
pub open spec fn positions(upto: usize) -> Seq<usize> {
    Seq::new(upto as nat, |i: int| i as usize)
}

/// The source of the packages that live beside the project in its
/// workspace.
#[derive(Debug, Clone, Copy)]
pub struct WorkspacePackageSource;

impl WorkspacePackageSource {
    /// The positions of the members of the workspace that satisfy
    /// `specifier` for a consumer of kind `project_target`, in order.
    pub fn resolve(
        members: &Vec<WorkspaceMember>,
        specifier: &WorkspaceDependencySpecifier,
        project_target: TargetKind,
    ) -> (r: Vec<usize>)
        ensures
            r@ == positions(members@.len() as usize).filter(
                satisfying(members@, *specifier, project_target),
            ),
    {
        let mut found: Vec<usize> = Vec::new();
        let mut i: usize = 0;
        let ghost keep = satisfying(members@, *specifier, project_target);
        proof {
            reveal(Seq::filter);
            assert(positions(0) == Seq::<usize>::empty());
        }
        while i < members.len()
            invariant
                i <= members@.len(),
                keep == satisfying(members@, *specifier, project_target),
                found@ == positions(i).filter(keep),
            decreases members@.len() - i,
        {
            proof {
                broadcast use Seq::lemma_filter_push;

                assert(positions((i + 1) as usize) == positions(i).push(i));
                assert(positions(i).push(i).filter(keep) == if keep(i) {
                    positions(i).filter(keep).push(i)
                } else {
                    positions(i).filter(keep)
                });
            }
            let member = &members[i];
            let kind = member.manifest.target.kind();
            let named = member.manifest.name.same_as(&specifier.name);
            let admitted = match &specifier.version {
                VersionTypeOrReq::Req(req) => req.matches(&member.manifest.version),
                VersionTypeOrReq::VersionType(_) => true,
            };
            let built = match specifier.target {
                Some(wanted) => kind == wanted,
                None => project_target.is_compatible_with(&kind),
            };
            if named && admitted && built {
                found.push(i);
            }
            i += 1;
        }
        found
    }
}

} // verus!
