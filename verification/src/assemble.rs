use vstd::prelude::*;

use crate::attachment::{AttachmentV, GeminiAttachment};
use crate::message::{
    ContentUnit, FileRef, FileRefV, MediaRef, MediaV, MsgV, RawMessage, UnitV,
};
use crate::translate::{translate, translate_spec};

verus! {

/// The photo variant an assembly fetches: the one of maximal byte size, the
/// last such when several are equally large.
pub open spec fn best_variant(vs: Seq<FileRefV>) -> FileRefV
    recommends
        vs.len() > 0,
    decreases vs.len(),
{
    if vs.len() <= 1 {
        vs[0]
    } else {
        let b = best_variant(vs.drop_last());
        if vs.last().size >= b.size {
            vs.last()
        } else {
            b
        }
    }
}

/// Which remote file translating one message will need: the best photo
/// variant of a translatable photo message, nothing otherwise.
pub open spec fn attachment_request_spec(m: MsgV) -> Option<FileRefV> {
    if m.author is None || !m.common {
        None
    } else {
        match m.media {
            MediaV::Photo(vs) => if vs.len() > 0 {
                Some(best_variant(vs))
            } else {
                None
            },
            _ => None,
        }
    }
}

/// Pick the best-quality photo variant: maximal byte size, the last one on a
/// tie.
pub fn best_variant_of(vs: &Vec<FileRef>) -> (r: FileRef)
    requires
        vs.len() > 0,
    ensures
        r@ == best_variant(vs.deep_view()),
{
    let ghost dv = vs.deep_view();
    let mut bi: usize = 0;
    let mut i: usize = 1;
    while i < vs.len()
        invariant
            0 <= bi < i <= vs.len(),
            dv == vs.deep_view(),
            dv.len() == vs.len(),
            best_variant(dv.subrange(0, i as int)) == dv[bi as int],
        decreases vs.len() - i,
    {
        proof {
            assert(dv.subrange(0, i + 1).drop_last() =~= dv.subrange(0, i as int));
            assert(dv.subrange(0, i + 1).last() == dv[i as int]);
        }
        if vs[i].size >= vs[bi].size {
            bi = i;
        }
        i = i + 1;
    }
    proof {
        assert(dv.subrange(0, vs.len() as int) =~= dv);
    }
    vs[bi].clone()
}

/// The fetch plan of a whole window: for each message, in order, the remote
/// file its translation will need, if any.
pub fn attachment_requests(window: &Vec<RawMessage>) -> (r: Vec<Option<FileRef>>)
    ensures
        r.deep_view().len() == window.len(),
        forall|i: int|
            0 <= i < window.len() ==> r.deep_view()[i] == attachment_request_spec(
                window.deep_view()[i],
            ),
{
    let mut r: Vec<Option<FileRef>> = Vec::new();
    let mut i: usize = 0;
    while i < window.len()
        invariant
            i <= window.len(),
            r.deep_view().len() == i,
            forall|j: int|
                0 <= j < i ==> r.deep_view()[j] == attachment_request_spec(
                    window.deep_view()[j],
                ),
        decreases window.len() - i,
    {
        let w = &window[i];
        let req: Option<FileRef> = if w.author.is_some() && w.common {
            match &w.media {
                MediaRef::Photo(vs) => {
                    if vs.len() > 0 {
                        Some(best_variant_of(vs))
                    } else {
                        None
                    }
                },
                _ => None,
            }
        } else {
            None
        };
        let ghost prev = r.deep_view();
        proof {
            assert(req.deep_view() == attachment_request_spec(window.deep_view()[i as int]));
        }
        r.push(req);
        proof {
            assert forall|j: int| 0 <= j < i + 1 implies r.deep_view()[j]
                == attachment_request_spec(window.deep_view()[j]) by {
                if j < i as int {
                    assert(r.deep_view()[j] == prev[j]);
                }
            }
        }
        i = i + 1;
    }
    r
}

/// What assembling a window yields: each message translated with its
/// attachment outcome, failures dropped, the survivors in window order. The
/// whole contract of [`assemble`].
pub open spec fn assemble_spec(window: Seq<MsgV>, me_id: u64, atts: Seq<Option<AttachmentV>>) -> Seq<
    UnitV,
>
    recommends
        window.len() == atts.len(),
    decreases window.len(),
{
    if window.len() == 0 {
        Seq::<UnitV>::empty()
    } else {
        assemble_spec(window.drop_last(), me_id, atts.drop_last()) + (match translate_spec(
            window.last(),
            me_id,
            atts.last(),
        ) {
            Ok(u) => seq![u],
            Err(_) => Seq::<UnitV>::empty(),
        })
    }
}

/// Translate a whole window — the cached history with the triggering message
/// at its tail — given the attachment-resolution outcome of each element, and
/// keep the successes in window order. `attachments[i]` belongs to
/// `window[i]`; a message whose translation fails is dropped, never fatal.
pub fn assemble(
    window: &Vec<RawMessage>,
    me_id: u64,
    attachments: &Vec<Option<GeminiAttachment>>,
) -> (r: Vec<ContentUnit>)
    requires
        window.len() == attachments.len(),
    ensures
        r.deep_view() == assemble_spec(window.deep_view(), me_id, attachments.deep_view()),
{
    let ghost wv = window.deep_view();
    let ghost av = attachments.deep_view();
    let mut r: Vec<ContentUnit> = Vec::new();
    let mut i: usize = 0;
    while i < window.len()
        invariant
            i <= window.len(),
            window.len() == attachments.len(),
            wv == window.deep_view(),
            av == attachments.deep_view(),
            wv.len() == window.len(),
            av.len() == attachments.len(),
            r.deep_view() == assemble_spec(wv.subrange(0, i as int), me_id, av.subrange(0, i as int)),
        decreases window.len() - i,
    {
        let att: Option<GeminiAttachment> = match &attachments[i] {
            Some(h) => Some(h.clone()),
            None => None,
        };
        proof {
            assert(att.deep_view() == av[i as int]);
            assert(wv.subrange(0, i + 1).drop_last() =~= wv.subrange(0, i as int));
            assert(av.subrange(0, i + 1).drop_last() =~= av.subrange(0, i as int));
            assert(wv.subrange(0, i + 1).last() == wv[i as int]);
            assert(av.subrange(0, i + 1).last() == av[i as int]);
        }
        let ghost prev = r.deep_view();
        match translate(&window[i], me_id, att) {
            Ok(u) => {
                let ghost uv = u@;
                r.push(u);
                proof {
                    assert(r.deep_view() =~= prev.push(uv));
                    assert(prev.push(uv) =~= prev + seq![uv]);
                }
            },
            Err(_) => {
                proof {
                    assert(prev + Seq::<UnitV>::empty() =~= prev);
                }
            },
        }
        i = i + 1;
    }
    proof {
        assert(wv.subrange(0, window.len() as int) =~= wv);
        assert(av.subrange(0, attachments.len() as int) =~= av);
    }
    r
}

/// The window one assembly call reads: the cached history, oldest first, then
/// the triggering message at the tail. The cached messages are not mutated
/// and the triggering message is not yet persisted by this step.
pub fn build_window(cached: Vec<RawMessage>, trigger: RawMessage) -> (r: Vec<RawMessage>)
    ensures
        r.deep_view() == cached.deep_view().push(trigger@),
{
    let ghost before = cached.deep_view();
    let ghost before_seq = cached@;
    let ghost tv = trigger@;
    let mut r = cached;
    r.push(trigger);
    proof {
        assert forall|j: int| 0 <= j < r.deep_view().len() implies r.deep_view()[j]
            == before.push(tv)[j] by {
            assert(r.deep_view()[j] == r@[j].deep_view());
            if j < before.len() {
                assert(r@[j] == before_seq[j]);
                assert(before[j] == before_seq[j].deep_view());
            }
        }
        assert(r.deep_view() =~= before.push(tv));
    }
    r
}

} // verus!
