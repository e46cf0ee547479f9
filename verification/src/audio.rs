use vstd::prelude::*;

use crate::launch::str_eq;
use crate::network::{first_true, lemma_first_true};

verus! {

/// One audio output device.
#[derive(Debug, Clone, Default)]
pub struct AudioDeviceSnapshot {
    pub id: String,
    pub name: String,
    pub is_default: bool,
}

/// Which devices are marked as the default one.
pub open spec fn default_flags(devices: Seq<AudioDeviceSnapshot>) -> Seq<bool> {
    devices.map_values(|d: AudioDeviceSnapshot| d.is_default)
}

/// Marks as default exactly the devices whose id is `default_id`, and returns the name
/// of the first device so marked, if there is one.
pub fn mark_default_device(devices: &mut Vec<AudioDeviceSnapshot>, default_id: &str) -> (name: Option<String>)
    ensures
        final(devices)@.len() == old(devices)@.len(),
        forall|k: int|
            0 <= k < final(devices)@.len() ==> {
                &&& (#[trigger] final(devices)@[k]).id == old(devices)@[k].id
                &&& final(devices)@[k].name == old(devices)@[k].name
                &&& final(devices)@[k].is_default == (old(devices)@[k].id@ == default_id@)
            },
        match first_true(default_flags(final(devices)@)) {
            Some(k) => name matches Some(n) && n@ == final(devices)@[k].name@,
            None => name is None,
        },
{
    let ghost before = devices@;
    let mut name: Option<String> = None;
    let mut i: usize = 0;
    while i < devices.len()
        invariant
            i <= devices@.len(),
            devices@.len() == before.len(),
            forall|k: int|
                0 <= k < devices@.len() ==> {
                    &&& (#[trigger] devices@[k]).id == before[k].id
                    &&& devices@[k].name == before[k].name
                },
            forall|k: int| 0 <= k < i ==> (#[trigger] devices@[k]).is_default == (before[k].id@ == default_id@),
            match name {
                Some(n) => exists|k: int|
                    0 <= k < i && #[trigger] devices@[k].is_default && n@ == devices@[k].name@
                        && forall|j: int| 0 <= j < k ==> !(#[trigger] devices@[j]).is_default,
                None => forall|j: int| 0 <= j < i ==> !(#[trigger] devices@[j]).is_default,
            },
        decreases before.len() - i,
    {
        let flag = str_eq(devices[i].id.as_str(), default_id);
        let ghost prev = devices@;
        let d = &mut devices[i];
        d.is_default = flag;
        assert(devices@ == prev.update(i as int, AudioDeviceSnapshot { is_default: flag, ..prev[i as int] }));
        if flag && name.is_none() {
            let n = devices[i].name.clone();
            proof {
                assert(forall|j: int| 0 <= j < i ==> #[trigger] devices@[j] == prev[j]);
                assert(devices@[i as int].is_default && n@ == devices@[i as int].name@);
            }
            name = Some(n);
        } else {
            proof {
                assert(forall|j: int| 0 <= j < i ==> #[trigger] devices@[j] == prev[j]);
                let ghost current = name;
                if let Some(n) = current {
                    let k = choose|k: int|
                        0 <= k < i && #[trigger] prev[k].is_default && n@ == prev[k].name@
                            && forall|j: int| 0 <= j < k ==> !(#[trigger] prev[j]).is_default;
                    assert(devices@[k] == prev[k]);
                    assert(forall|j: int| 0 <= j < k ==> #[trigger] devices@[j] == prev[j]);
                    assert(0 <= k < i + 1 && devices@[k].is_default && n@ == devices@[k].name@
                        && forall|j: int| 0 <= j < k ==> !(#[trigger] devices@[j]).is_default);
                }
            }
        }
        i = i + 1;
    }
    let ghost found = name;
    proof {
        let flags = default_flags(devices@);
        match found {
            Some(n) => {
                let k = choose|k: int|
                    0 <= k < i && #[trigger] devices@[k].is_default && n@ == devices@[k].name@
                        && forall|j: int| 0 <= j < k ==> !(#[trigger] devices@[j]).is_default;
                assert forall|j: int| 0 <= j < k implies !#[trigger] flags[j] by {
                    assert(!devices@[j].is_default);
                }
                lemma_first_true(flags, k);
            },
            None => {
                assert forall|j: int| 0 <= j < flags.len() implies !#[trigger] flags[j] by {
                    assert(!devices@[j].is_default);
                }
                lemma_first_true(flags, flags.len() as int);
            },
        }
    }
    name
}

} // verus!
