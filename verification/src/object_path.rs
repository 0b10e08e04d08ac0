use vstd::prelude::*;

verus! {

/// Where to look for the object file an artifact records.
#[derive(Debug, Clone, Copy, PartialEq, Eq, Structural)]
pub enum ObjectCandidate {
    /// The recorded path as it stands.
    AsRecorded,
    /// The recorded path taken from the artifact's directory.
    NextToArtifact,
    /// The recorded path taken from the parent of the artifact's directory.
    NextToArtifactDir,
}

/// Which of the places the object file is taken from: an absolute path as
/// it stands; a relative one next to the artifact if it is there, else next
/// to the artifact's directory if that has a parent and it is there, else
/// from the working directory if it is there, else next to the artifact
/// (where a missing file is then reported).
pub open spec fn spec_object_candidate(
    is_absolute: bool,
    next_to_artifact: bool,
    artifact_dir_has_parent: bool,
    next_to_artifact_dir: bool,
    as_recorded: bool,
) -> ObjectCandidate {
    if is_absolute {
        ObjectCandidate::AsRecorded
    } else if next_to_artifact {
        ObjectCandidate::NextToArtifact
    } else if artifact_dir_has_parent && next_to_artifact_dir {
        ObjectCandidate::NextToArtifactDir
    } else if as_recorded {
        ObjectCandidate::AsRecorded
    } else {
        ObjectCandidate::NextToArtifact
    }
}

/// Chooses where the object file is taken from, given whether the recorded
/// path is absolute and whether a file exists at each place.
pub fn object_candidate(
    is_absolute: bool,
    next_to_artifact: bool,
    artifact_dir_has_parent: bool,
    next_to_artifact_dir: bool,
    as_recorded: bool,
) -> (r: ObjectCandidate)
    ensures
        r == spec_object_candidate(is_absolute, next_to_artifact, artifact_dir_has_parent, next_to_artifact_dir, as_recorded),
{
    if is_absolute {
        ObjectCandidate::AsRecorded
    } else if next_to_artifact {
        ObjectCandidate::NextToArtifact
    } else if artifact_dir_has_parent && next_to_artifact_dir {
        ObjectCandidate::NextToArtifactDir
    } else if as_recorded {
        ObjectCandidate::AsRecorded
    } else {
        ObjectCandidate::NextToArtifact
    }
}

} // verus!
