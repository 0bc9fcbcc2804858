//! Jobs, and the one image that a job burns.

use crate::error::{FlashError, FlashErrorView};
use crate::text;
use crate::text::{push_decimal, trim};
use vstd::prelude::*;
use vstd::string::*;

verus! {

/// What a job is to do.
#[derive(Clone, Copy, Debug, PartialEq, Eq, Structural)]
pub enum FlashMode {
    Flash,
    Erase,
    Read,
    Authorize,
}

/// A file and the address range that it is meant for.
#[derive(Debug)]
pub struct FlashSegment {
    pub firmware_path: String,
    pub start_addr: String,
    pub end_addr: String,
}

/// A job for one device.
#[derive(Debug)]
pub struct FlashJob {
    pub mode: FlashMode,
    pub chip_id: String,
    pub port: String,
    pub baud_rate: u32,
    pub segments: Option<Vec<FlashSegment>>,
    pub firmware_path: Option<String>,
}

/// The paths that a list of segments names: trimmed, without the blank ones, in order.
pub open spec fn named_paths(segments: Seq<FlashSegment>) -> Seq<Seq<char>>
    decreases segments.len(),
{
    if segments.len() == 0 {
        Seq::empty()
    } else {
        let before = named_paths(segments.drop_last());
        let path = text::trimmed(segments.last().firmware_path@);
        if path.len() == 0 {
            before
        } else {
            before.push(path)
        }
    }
}

/// The paths that the segments of a job name; none without segments.
pub open spec fn segment_paths(job: &FlashJob) -> Seq<Seq<char>> {
    match job.segments {
        Some(segments) => named_paths(segments@),
        None => Seq::empty(),
    }
}

/// The single path of a job outside its segments, trimmed; blank is as good as none.
pub open spec fn single_path(job: &FlashJob) -> Option<Seq<char>> {
    match job.firmware_path {
        Some(path) => if text::trimmed(path@).len() == 0 {
            None
        } else {
            Some(text::trimmed(path@))
        },
        None => None,
    }
}

pub open spec fn too_many_message(count: nat) -> Seq<char> {
    "SIWX917: got "@ + text::decimal(count)
        + " firmware images, but this bootloader burns one image per run — flash the M4 application and the NWP/TA wireless firmware in separate runs"@
}

/// The image that a job burns: the one that its segments name or, if they name none, the single
/// path. More than one is an error, and so is none.
pub open spec fn image_path(job: &FlashJob) -> Result<Seq<char>, FlashErrorView> {
    let paths = segment_paths(job);
    if paths.len() > 1 {
        Err(FlashErrorView::InvalidJob(too_many_message(paths.len())))
    } else if paths.len() == 1 {
        Ok(paths[0])
    } else {
        match single_path(job) {
            Some(path) => Ok(path),
            None => Err(FlashErrorView::InvalidJob("missing firmware_path"@)),
        }
    }
}

/// Picks the one image to burn. Segments go before the single path. Their addresses do not
/// matter: the bootloader takes a menu slot, not an address.
pub fn resolve_single_image(job: &FlashJob) -> (res: Result<String, FlashError>)
    ensures
        res is Ok <==> image_path(job) is Ok,
        res matches Ok(path) ==> image_path(job) == Ok::<_, FlashErrorView>(path@),
        res matches Err(e) ==> image_path(job) == Err::<Seq<char>, _>(e@),
{
    let mut count: usize = 0;
    let mut first: Option<String> = None;
    if let Some(segments) = &job.segments {
        let mut i: usize = 0;
        while i < segments.len()
            invariant
                i <= segments.len(),
                count <= i,
                count == named_paths(segments@.take(i as int)).len(),
                count == 0 ==> first is None,
                count > 0 ==> first is Some && first->0@ == named_paths(
                    segments@.take(i as int),
                )[0],
            decreases segments.len() - i,
        {
            proof {
                assert(segments@.take(i + 1).drop_last() =~= segments@.take(i as int));
            }
            let path: &str = trim(segments[i].firmware_path.as_str());
            if !path.is_empty() {
                if count == 0 {
                    first = Some(path.to_string());
                }
                count += 1;
            }
            i += 1;
        }
        assert(segments@.take(i as int) =~= segments@);
    }
    if count > 1 {
        let mut m: String = "SIWX917: got ".to_string();
        push_decimal(&mut m, count as u64);
        m.append(
            " firmware images, but this bootloader burns one image per run — flash the M4 application and the NWP/TA wireless firmware in separate runs",
        );
        return Err(FlashError::InvalidJob(m));
    }
    if let Some(path) = first {
        return Ok(path);
    }
    if let Some(path) = &job.firmware_path {
        let path: &str = trim(path.as_str());
        if !path.is_empty() {
            return Ok(path.to_string());
        }
    }
    Err(FlashError::InvalidJob("missing firmware_path".to_string()))
}

/// Each segment counts on its own: a list names what its parts name, in order.
pub proof fn law_named_paths_of_parts(a: Seq<FlashSegment>, b: Seq<FlashSegment>)
    ensures
        named_paths(a + b) == named_paths(a) + named_paths(b),
    decreases b.len(),
{
    if b.len() == 0 {
        assert(a + b =~= a);
        assert(named_paths(a) + named_paths(b) =~= named_paths(a));
    } else {
        law_named_paths_of_parts(a, b.drop_last());
        assert((a + b).drop_last() =~= a + b.drop_last());
        assert((a + b).last() == b.last());
        assert(named_paths(a + b) =~= named_paths(a) + named_paths(b));
    }
}

/// A segment with a blank path counts for nothing, wherever it stands.
pub proof fn law_blank_segments_do_not_count(
    a: Seq<FlashSegment>,
    blank: FlashSegment,
    b: Seq<FlashSegment>,
)
    requires
        text::trimmed(blank.firmware_path@).len() == 0,
    ensures
        named_paths(a + seq![blank] + b) == named_paths(a + b),
{
    let one = seq![blank];
    law_named_paths_of_parts(a + one, b);
    law_named_paths_of_parts(a, one);
    law_named_paths_of_parts(a, b);
    assert(one.drop_last() =~= Seq::<FlashSegment>::empty());
    assert(named_paths(one) =~= named_paths(one.drop_last()));
    assert(named_paths(a) + named_paths(one) =~= named_paths(a));
}

/// Whether two lists of segments name the same files up to white space around the paths, whatever
/// the addresses.
pub open spec fn same_files(a: Seq<FlashSegment>, b: Seq<FlashSegment>) -> bool {
    &&& a.len() == b.len()
    &&& forall|i: int|
        0 <= i < a.len() ==> text::trimmed((#[trigger] a[i]).firmware_path@) == text::trimmed(
            (#[trigger] b[i]).firmware_path@,
        )
}

/// Neither the addresses of the segments nor the white space around their paths matter to what
/// they name.
pub proof fn law_addresses_and_white_space_do_not_matter(
    a: Seq<FlashSegment>,
    b: Seq<FlashSegment>,
)
    requires
        same_files(a, b),
    ensures
        named_paths(a) == named_paths(b),
    decreases a.len(),
{
    if a.len() > 0 {
        let n = a.len() - 1;
        assert(text::trimmed(a[n].firmware_path@) == text::trimmed(b[n].firmware_path@));
        assert forall|i: int| 0 <= i < a.drop_last().len() implies text::trimmed(
            (#[trigger] a.drop_last()[i]).firmware_path@,
        ) == text::trimmed((#[trigger] b.drop_last()[i]).firmware_path@) by {
            assert(text::trimmed(a[i].firmware_path@) == text::trimmed(b[i].firmware_path@));
        }
        law_addresses_and_white_space_do_not_matter(a.drop_last(), b.drop_last());
    }
}

/// Which image a job burns depends on the paths that it names alone: not on the mode, the chip, the
/// port or the baud rate, nor on the addresses of the segments, the blank ones among them, or the
/// white space around a path.
pub proof fn law_only_paths_choose_the_image(a: &FlashJob, b: &FlashJob)
    requires
        segment_paths(a) == segment_paths(b),
        single_path(a) == single_path(b),
    ensures
        image_path(a) == image_path(b),
{
}

/// One segment names its path without the white space around it, or nothing if that leaves nothing.
pub proof fn law_named_path_of_one_segment(segment: FlashSegment)
    ensures
        named_paths(Seq::empty()).len() == 0,
        text::trimmed(segment.firmware_path@).len() > 0 ==> named_paths(seq![segment]) == seq![
            text::trimmed(segment.firmware_path@),
        ],
        text::trimmed(segment.firmware_path@).len() == 0 ==> named_paths(seq![segment]).len() == 0,
{
    let one = seq![segment];
    assert(one.drop_last() =~= Seq::<FlashSegment>::empty());
    assert(named_paths(one.drop_last()) =~= Seq::<Seq<char>>::empty());
    if text::trimmed(segment.firmware_path@).len() > 0 {
        assert(named_paths(one) =~= seq![text::trimmed(segment.firmware_path@)]);
    }
}

/// The one path that the segments name is burned, whatever the single path; more than one is an
/// error that tells how many; with none it is the single path, if that is not blank, and otherwise
/// an error.
pub proof fn law_which_image_is_burned(job: &FlashJob, named: Seq<Seq<char>>)
    requires
        job.segments matches Some(segments) ==> named == named_paths(segments@),
        job.segments is None ==> named.len() == 0,
    ensures
        named.len() == 1 ==> image_path(job) == Ok::<_, FlashErrorView>(named[0]),
        named.len() > 1 ==> image_path(job) == Err::<Seq<char>, _>(
            FlashErrorView::InvalidJob(
                "SIWX917: got "@ + text::decimal(named.len())
                    + " firmware images, but this bootloader burns one image per run — flash the M4 application and the NWP/TA wireless firmware in separate runs"@,
            ),
        ),
        named.len() == 0 ==> match job.firmware_path {
            Some(path) => if text::trimmed(path@).len() > 0 {
                image_path(job) == Ok::<_, FlashErrorView>(text::trimmed(path@))
            } else {
                image_path(job) == Err::<Seq<char>, _>(
                    FlashErrorView::InvalidJob("missing firmware_path"@),
                )
            },
            None => image_path(job) == Err::<Seq<char>, _>(
                FlashErrorView::InvalidJob("missing firmware_path"@),
            ),
        },
{
}

} // verus!
