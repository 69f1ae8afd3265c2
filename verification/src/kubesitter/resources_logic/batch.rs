//! Patches for cron jobs: suspending and resuming them.
use vstd::prelude::*;

use super::SUSPENDED_ANNOTATION;
use crate::resources::{
    cron_job_type, make_patch, opt_patch_view, text_annotation, AnnotationValueView, CronJob,
    CronJobSpec, Patch, PatchView, SpecPatch, SpecPatchView,
};
use crate::text::to_owned_string;

verus! {

/// `spec.suspend` of a cron job, if both are present.
pub open spec fn cron_job_suspend(spec: Option<CronJobSpec>) -> Option<bool> {
    match spec {
        Some(s) => s.suspend,
        None => None,
    }
}

/// The patch that suspends a cron job, marking it with the suspended
/// annotation, or that resumes a cron job that carries the annotation.
pub open spec fn cron_job_patch(
    annotations: Map<Seq<char>, Seq<char>>,
    suspend: Option<bool>,
    desired_state: bool,
) -> Option<PatchView> {
    if desired_state {
        if !annotations.contains_key(SUSPENDED_ANNOTATION@) {
            None
        } else {
            Some(
                PatchView {
                    api_version: "batch/v1"@,
                    kind: "CronJob"@,
                    annotations: Some(
                        seq![(SUSPENDED_ANNOTATION@, AnnotationValueView::Text("false"@))],
                    ),
                    spec: SpecPatchView::Suspend(false),
                },
            )
        }
    } else {
        match suspend {
            None => None,
            Some(true) => None,
            Some(false) => Some(
                PatchView {
                    api_version: "batch/v1"@,
                    kind: "CronJob"@,
                    annotations: Some(
                        seq![(SUSPENDED_ANNOTATION@, AnnotationValueView::Text("true"@))],
                    ),
                    spec: SpecPatchView::Suspend(true),
                },
            ),
        }
    }
}

/// The patch that suspends or resumes a cron job.
pub fn generate_cron_job_patch(resource: &CronJob, desired_state: bool) -> (r: Option<Patch>)
    ensures
        opt_patch_view(r) == cron_job_patch(
            resource.metadata.annotations_view(),
            cron_job_suspend(resource.spec),
            desired_state,
        ),
{
    let type_meta = cron_job_type();
    if desired_state {
        if resource.metadata.annotation(SUSPENDED_ANNOTATION).is_none() {
            return None;
        }
        let annotations = text_annotation(SUSPENDED_ANNOTATION, to_owned_string("false"));
        Some(make_patch(type_meta, Some(annotations), SpecPatch::Suspend(false)))
    } else {
        let is_suspended = match &resource.spec {
            Some(s) => match s.suspend {
                Some(b) => b,
                None => return None,
            },
            None => return None,
        };
        if is_suspended {
            return None;
        }
        let annotations = text_annotation(SUSPENDED_ANNOTATION, to_owned_string("true"));
        Some(make_patch(type_meta, Some(annotations), SpecPatch::Suspend(true)))
    }
}

} // verus!
