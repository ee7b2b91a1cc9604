//! Jobs of encoders.
use zencodec::job::EncodeJob;
use zencodec::metadata::{Metadata, MetadataPolicy};
use zencodec::policy::EncodePolicy;
use zencodec::Orientation;

#[derive(Default)]
struct Job {
    meta: Option<Metadata>,
}

impl EncodeJob for Job {
    fn with_metadata(self, meta: Metadata) -> Self {
        Job { meta: Some(meta) }
    }
}

fn meta() -> Metadata {
    Metadata::none().with_xmp(vec![1, 2]).with_orientation(Orientation::Rotate90)
}

#[test]
fn a_policy_filters_what_is_embedded() {
    let job = Job::default().with_metadata_policy(meta(), MetadataPolicy::Web);
    let embedded = job.meta.unwrap();
    assert!(embedded.xmp.is_none());
    assert_eq!(embedded.orientation, Orientation::Rotate90);
}

#[test]
fn without_a_policy_all_is_embedded() {
    let job = Job::default().with_metadata(meta());
    assert_eq!(job.meta, Some(meta()));
}

#[test]
fn unsupported_settings_change_nothing() {
    let job = Job::default()
        .with_metadata(meta())
        .with_policy(EncodePolicy::none())
        .with_canvas_size(3, 4)
        .with_loop_count(Some(0));
    assert_eq!(job.meta, Some(meta()));
}
