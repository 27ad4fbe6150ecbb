//! Which files a launch profile serves, resolved against the model catalog.
use vstd::prelude::*;

use crate::error::{kept_details, opt_text, AppError, AppResult, ErrorCode};
use crate::models::catalog::{ModelCatalog, ModelRecord, ProjectorRecord};
use crate::models::identity::ModelRole;
use crate::text::{chars_equal, chars_of, concat_text};

verus! {

/// `i` is the first model listed under `id`.
pub open spec fn first_model_with_id(models: Seq<ModelRecord>, id: Seq<char>, i: int) -> bool {
    &&& 0 <= i < models.len()
    &&& models[i].id@ == id
    &&& forall|j: int| 0 <= j < i ==> models[j].id@ != id
}

/// `i` is the first projector listed under `id`.
pub open spec fn first_projector_with_id(projectors: Seq<ProjectorRecord>, id: Seq<char>, i: int) -> bool {
    &&& 0 <= i < projectors.len()
    &&& projectors[i].id@ == id
    &&& forall|j: int| 0 <= j < i ==> projectors[j].id@ != id
}

/// The path of the projector a model is paired with, when the catalog lists it.
pub open spec fn paired_projector_path(projectors: Seq<ProjectorRecord>, projector_id: Option<String>) -> Option<Seq<char>> {
    match projector_id {
        Some(id) => if exists|i: int| first_projector_with_id(projectors, id@, i) {
            Some(projectors[choose|i: int| first_projector_with_id(projectors, id@, i)].path@)
        } else {
            None
        },
        None => None,
    }
}

fn first_model(models: &Vec<ModelRecord>, id: &str) -> (r: Option<usize>)
    ensures
        match r {
            Some(i) => first_model_with_id(models@, id@, i as int),
            None => forall|j: int| 0 <= j < models@.len() ==> models@[j].id@ != id@,
        },
{
    let wanted = chars_of(id);
    let mut i: usize = 0;
    while i < models.len()
        invariant
            i <= models@.len(),
            wanted@ == id@,
            forall|j: int| 0 <= j < i ==> models@[j].id@ != id@,
        decreases models.len() - i,
    {
        if chars_equal(chars_of(models[i].id.as_str()).as_slice(), wanted.as_slice()) {
            return Some(i);
        }
        i += 1;
    }
    None
}

fn first_projector(projectors: &Vec<ProjectorRecord>, id: &str) -> (r: Option<usize>)
    ensures
        match r {
            Some(i) => first_projector_with_id(projectors@, id@, i as int),
            None => forall|j: int| 0 <= j < projectors@.len() ==> projectors@[j].id@ != id@,
        },
{
    let wanted = chars_of(id);
    let mut i: usize = 0;
    while i < projectors.len()
        invariant
            i <= projectors@.len(),
            wanted@ == id@,
            forall|j: int| 0 <= j < i ==> projectors@[j].id@ != id@,
        decreases projectors.len() - i,
    {
        if chars_equal(chars_of(projectors[i].id.as_str()).as_slice(), wanted.as_slice()) {
            return Some(i);
        }
        i += 1;
    }
    None
}

/// A drafter is attached on the speculative side; it cannot be the model a profile serves.
pub fn check_primary_model(catalog: &ModelCatalog, model_id: &str) -> (r: AppResult<()>)
    ensures
        r is Err <==> exists|i: int| #[trigger] first_model_with_id(catalog.models@, model_id@, i)
            && catalog.models@[i].role == ModelRole::Drafter,
        r matches Err(e) ==> e.code == ErrorCode::InvalidProfile && e.message@
            == "A drafter cannot be used as the primary model."@ && opt_text(e.hint) == Some(
            "Choose the full model on the Profile tab and attach this file on the Speculative tab."@,
        ),
{
    match first_model(&catalog.models, model_id) {
        Some(i) => if catalog.models[i].is_drafter() {
            Err(
                AppError::new(
                    ErrorCode::InvalidProfile,
                    "A drafter cannot be used as the primary model.",
                ).with_hint(
                    "Choose the full model on the Profile tab and attach this file on the Speculative tab.",
                ),
            )
        } else {
            proof {
                assert forall|k: int| #[trigger] first_model_with_id(catalog.models@, model_id@, k)
                    implies catalog.models@[k].role != ModelRole::Drafter by {
                    assert(k == i as int);
                }
            }
            Ok(())
        },
        None => Ok(()),
    }
}

/// The files a profile serves when it takes its model from the catalog.
#[derive(Debug, Clone)]
pub struct CatalogTarget {
    pub model_name: String,
    pub model_path: String,
    pub projector_path: Option<String>,
}

/// What the catalog gives for `model`: its name, its first shard and its paired projector's path,
/// or, for a model with missing shards or none at all, the refusal.
pub open spec fn target_of(model: ModelRecord, projectors: Seq<ProjectorRecord>, r: AppResult<CatalogTarget>) -> bool {
    if !model.complete {
        r matches Err(e) && e.code == ErrorCode::InvalidProfile && e.message@
            == "The selected model is missing one or more shards."@ && opt_text(e.hint) == Some(
            "Restore every shard before creating a launch profile."@,
        )
    } else {
        match model.primary_path {
            Some(path) => r matches Ok(t) && t.model_name@ == model.display_name@ && t.model_path@
                == path@ && opt_text(t.projector_path) == paired_projector_path(
                projectors,
                model.projector_id,
            ),
            None => r matches Err(e) && e.code == ErrorCode::InvalidProfile && e.message@
                == "The selected model has no first shard."@,
        }
    }
}

/// Resolves the model a new or re-targeted profile serves from the catalog: the first model
/// listed under `model_id`, which must be complete and have a first shard, with the path of the
/// projector it is paired with when the catalog lists that projector.
pub fn catalog_target(catalog: &ModelCatalog, model_id: &str) -> (r: AppResult<CatalogTarget>)
    ensures
        (forall|j: int| 0 <= j < catalog.models@.len() ==> catalog.models@[j].id@ != model_id@)
            ==> (r matches Err(e) && e.code == ErrorCode::InvalidProfile && e.message@
            == "The selected model is no longer in the model catalog."@ && opt_text(e.details)
            == kept_details(None, model_id@)),
        forall|i: int| #[trigger] first_model_with_id(catalog.models@, model_id@, i) ==> target_of(
            catalog.models@[i],
            catalog.projectors@,
            r,
        ),
{
    let i = match first_model(&catalog.models, model_id) {
        Some(i) => i,
        None => {
            return Err(
                AppError::new(
                    ErrorCode::InvalidProfile,
                    "The selected model is no longer in the model catalog.",
                ).with_details(model_id),
            );
        },
    };
    let model = &catalog.models[i];
    proof {
        assert forall|k: int| #[trigger] first_model_with_id(catalog.models@, model_id@, k)
            implies k == i as int by {}
    }
    if !model.complete {
        return Err(
            AppError::new(
                ErrorCode::InvalidProfile,
                "The selected model is missing one or more shards.",
            ).with_hint("Restore every shard before creating a launch profile."),
        );
    }
    let model_path = match &model.primary_path {
        Some(path) => path.clone(),
        None => {
            return Err(
                AppError::new(ErrorCode::InvalidProfile, "The selected model has no first shard."),
            );
        },
    };
    let projector_path = match &model.projector_id {
        Some(projector_id) => match first_projector(&catalog.projectors, projector_id.as_str()) {
            Some(k) => {
                proof {
                    let c = choose|c: int|
                        first_projector_with_id(catalog.projectors@, projector_id@, c);
                    assert(first_projector_with_id(catalog.projectors@, projector_id@, k as int));
                    assert(c == k as int);
                }
                Some(catalog.projectors[k].path.clone())
            },
            None => None,
        },
        None => None,
    };
    Ok(CatalogTarget { model_name: model.display_name.clone(), model_path, projector_path })
}

/// What a profile needs of its runtime before it can be prepared: that the registry still has
/// it, that its executable is on disk, and that it has been inspected. `executable` is the
/// registered executable's path, reported when it is missing.
pub fn check_profile_runtime(
    runtime_id: &str,
    registered: bool,
    executable: &str,
    executable_present: bool,
    inspected: bool,
) -> (r: AppResult<()>)
    ensures
        r is Ok <==> (registered && executable_present && inspected),
        r matches Err(e) ==> if !registered {
            &&& e.code == ErrorCode::RuntimeNotFound
            &&& e.message@ == "The runtime selected by this profile no longer exists."@
            &&& opt_text(e.details) == kept_details(None, runtime_id@)
        } else if !executable_present {
            &&& e.code == ErrorCode::RuntimeNotFound
            &&& e.message@ == "The selected runtime executable is missing."@
            &&& opt_text(e.details) == kept_details(None, executable@)
        } else {
            &&& e.code == ErrorCode::CapabilityDiscoveryFailed
            &&& e.message@ == "The selected runtime has not been inspected."@
            &&& opt_text(e.hint) == Some("Inspect it on the Build page before creating a profile."@)
        },
{
    if !registered {
        return Err(
            AppError::new(
                ErrorCode::RuntimeNotFound,
                "The runtime selected by this profile no longer exists.",
            ).with_details(runtime_id),
        );
    }
    if !executable_present {
        return Err(
            AppError::new(
                ErrorCode::RuntimeNotFound,
                "The selected runtime executable is missing.",
            ).with_details(executable),
        );
    }
    if !inspected {
        return Err(
            AppError::new(
                ErrorCode::CapabilityDiscoveryFailed,
                "The selected runtime has not been inspected.",
            ).with_hint("Inspect it on the Build page before creating a profile."),
        );
    }
    Ok(())
}

/// A file a profile pins must still be on disk: `present` is what the disk says of `path`.
pub fn require_file(path: &str, label: &str, present: bool) -> (r: AppResult<()>)
    ensures
        r is Ok <==> present,
        r matches Err(e) ==> e.code == ErrorCode::InvalidProfile && e.message@ == label@
            + " is missing."@ && opt_text(e.details) == kept_details(None, path@),
{
    if !present {
        let message = concat_text(label, " is missing.");
        return Err(AppError::new(ErrorCode::InvalidProfile, message.as_str()).with_details(path));
    }
    Ok(())
}

/// A profile re-saved with the model it already pins keeps its pinned files, which must still
/// exist: the model first, then the projector when it pins one.
pub fn check_pinned_files(
    model_path: &str,
    model_present: bool,
    projector_path: Option<&str>,
    projector_present: bool,
) -> (r: AppResult<()>)
    ensures
        r is Ok <==> (model_present && (projector_path is Some ==> projector_present)),
        r matches Err(e) ==> e.code == ErrorCode::InvalidProfile && if !model_present {
            e.message@ == "The profile's pinned model is missing."@ && opt_text(e.details)
                == kept_details(None, model_path@)
        } else {
            projector_path matches Some(p) && e.message@
                == "The profile's pinned projector is missing."@ && opt_text(e.details)
                == kept_details(None, p@)
        },
{
    proof {
        reveal_strlit("The profile's pinned model");
        reveal_strlit("The profile's pinned projector");
        reveal_strlit(" is missing.");
        reveal_strlit("The profile's pinned model is missing.");
        reveal_strlit("The profile's pinned projector is missing.");
    }
    let checked = require_file(model_path, "The profile's pinned model", model_present);
    if checked.is_err() {
        return checked;
    }
    match projector_path {
        Some(p) => require_file(p, "The profile's pinned projector", projector_present),
        None => Ok(()),
    }
}

} // verus!
