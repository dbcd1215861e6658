//! Container mounts: `/source:/target[:ro]` and `pvc:claim:/target[:ro]`.

use vstd::prelude::*;
use crate::k8s::{
    ClaimVolume, ClaimVolumeView, HostPathVolume, HostPathVolumeView, Volume, VolumeMount,
    VolumeMountView, VolumeView,
};
use crate::text::{decimal, join2, same_text, split_on, split_text, u64_text};

verus! {

/// A volume that nothing is said of but its name.
pub open spec fn bare_volume(name: Seq<char>) -> VolumeView {
    VolumeView {
        name,
        host_path: None,
        persistent_volume_claim: None,
        empty_dir: None,
        other: Seq::empty(),
    }
}

/// Whether the part at `i` asks for a read-only mount.
pub open spec fn asks_read_only(parts: Seq<Seq<char>>, i: int) -> bool {
    i < parts.len() && parts[i] == "ro"@
}

/// The volume and the mount that the `i`-th mount text asks for, if it is
/// complete.
pub open spec fn mount_of(i: nat, text: Seq<char>) -> Option<(VolumeView, VolumeMountView)> {
    let parts = split_on(text, ':');
    if parts.len() >= 2 && parts[0] == "pvc"@ {
        if parts.len() >= 3 {
            let name = "pvc-"@ + decimal(i);
            let read_only = Some(asks_read_only(parts, 3));
            Some(
                (
                    VolumeView {
                        persistent_volume_claim: Some(
                            ClaimVolumeView { claim_name: parts[1], read_only },
                        ),
                        ..bare_volume(name)
                    },
                    VolumeMountView { name, mount_path: parts[2], read_only, other: Seq::empty() },
                ),
            )
        } else {
            None
        }
    } else if parts.len() >= 2 {
        let name = "hostpath-"@ + decimal(i);
        Some(
            (
                VolumeView {
                    host_path: Some(
                        HostPathVolumeView {
                            path: parts[0],
                            type_: Some("DirectoryOrCreate"@),
                        },
                    ),
                    ..bare_volume(name)
                },
                VolumeMountView {
                    name,
                    mount_path: parts[1],
                    read_only: Some(asks_read_only(parts, 2)),
                    other: Seq::empty(),
                },
            ),
        )
    } else {
        None
    }
}

/// The volumes and mounts that the mount texts ask for, in order. A text that is
/// incomplete is passed over, but still counts.
pub open spec fn mounts_of(texts: Seq<Seq<char>>) -> Seq<(VolumeView, VolumeMountView)>
    decreases texts.len(),
{
    if texts.len() == 0 {
        Seq::empty()
    } else {
        let before = mounts_of(texts.drop_last());
        match mount_of((texts.len() - 1) as nat, texts.last()) {
            None => before,
            Some(pair) => before.push(pair),
        }
    }
}

/// The volumes that the mount texts ask for.
pub open spec fn volumes_of(texts: Seq<Seq<char>>) -> Seq<VolumeView> {
    mounts_of(texts).map_values(|pair: (VolumeView, VolumeMountView)| pair.0)
}

/// The mounts that the mount texts ask for.
pub open spec fn volume_mounts_of(texts: Seq<Seq<char>>) -> Seq<VolumeMountView> {
    mounts_of(texts).map_values(|pair: (VolumeView, VolumeMountView)| pair.1)
}

fn part_is(parts: &Vec<String>, i: usize, text: &str) -> (yes: bool)
    ensures
        yes == (i < parts@.len() && parts.deep_view()[i as int] == text@),
{
    i < parts.len() && same_text(parts[i].as_str(), text)
}

fn parse_mount(i: usize, text: &str) -> (out: Option<(Volume, VolumeMount)>)
    ensures
        match mount_of(i as nat, text@) {
            None => out is None,
            Some((volume, mount)) => out matches Some((v, m)) && v@ == volume && m@ == mount,
        },
{
    let parts: Vec<String> = split_text(text, ':');
    let index = u64_text(i as u64);
    proof {
        assert(split_on(text@, ':') == parts.deep_view());
    }
    if parts.len() >= 2 && part_is(&parts, 0, "pvc") {
        if parts.len() < 3 {
            return None;
        }
        let name = join2("pvc-", index.as_str());
        let read_only = part_is(&parts, 3, "ro");
        let volume = Volume {
            name: name.clone(),
            host_path: None,
            persistent_volume_claim: Some(
                ClaimVolume { claim_name: parts[1].clone(), read_only: Some(read_only) },
            ),
            empty_dir: None,
            other: String::new(),
        };
        let mount = VolumeMount {
            name,
            mount_path: parts[2].clone(),
            read_only: Some(read_only),
            other: String::new(),
        };
        Some((volume, mount))
    } else if parts.len() >= 2 {
        let name = join2("hostpath-", index.as_str());
        let read_only = part_is(&parts, 2, "ro");
        let volume = Volume {
            name: name.clone(),
            host_path: Some(
                HostPathVolume {
                    path: parts[0].clone(),
                    type_: Some("DirectoryOrCreate".to_owned()),
                },
            ),
            persistent_volume_claim: None,
            empty_dir: None,
            other: String::new(),
        };
        let mount = VolumeMount {
            name,
            mount_path: parts[1].clone(),
            read_only: Some(read_only),
            other: String::new(),
        };
        Some((volume, mount))
    } else {
        None
    }
}

/// The volumes and mounts that the mount texts ask for.
pub fn parse_mounts(mounts: &Vec<String>) -> (out: (Vec<Volume>, Vec<VolumeMount>))
    ensures
        out.0.deep_view() == volumes_of(mounts.deep_view()),
        out.1.deep_view() == volume_mounts_of(mounts.deep_view()),
{
    let ghost texts = mounts.deep_view();
    let mut volumes: Vec<Volume> = Vec::new();
    let mut volume_mounts: Vec<VolumeMount> = Vec::new();
    let mut i: usize = 0;
    proof {
        assert(texts.take(0) =~= Seq::<Seq<char>>::empty());
        assert(volumes.deep_view() =~= volumes_of(texts.take(0)));
        assert(volume_mounts.deep_view() =~= volume_mounts_of(texts.take(0)));
    }
    while i < mounts.len()
        invariant
            i <= mounts@.len(),
            texts == mounts.deep_view(),
            volumes.deep_view() == volumes_of(texts.take(i as int)),
            volume_mounts.deep_view() == volume_mounts_of(texts.take(i as int)),
        decreases mounts@.len() - i,
    {
        let ghost upto = texts.take(i + 1);
        proof {
            assert(upto.drop_last() =~= texts.take(i as int));
            assert(upto.last() == mounts@[i as int]@);
        }
        match parse_mount(i, mounts[i].as_str()) {
            None => {},
            Some((volume, mount)) => {
                let ghost v = volumes.deep_view();
                let ghost m = volume_mounts.deep_view();
                volumes.push(volume);
                volume_mounts.push(mount);
                proof {
                    assert(volumes.deep_view() =~= v.push(volume@));
                    assert(volume_mounts.deep_view() =~= m.push(mount@));
                    assert(volumes_of(upto) =~= v.push(volume@));
                    assert(volume_mounts_of(upto) =~= m.push(mount@));
                }
            },
        }
        i = i + 1;
    }
    proof {
        assert(texts.take(i as int) =~= texts);
    }
    (volumes, volume_mounts)
}

/// Every mount has its volume: they come in pairs with the same name.
pub proof fn law_mounts_name_their_volumes(texts: Seq<Seq<char>>)
    ensures
        volumes_of(texts).len() == volume_mounts_of(texts).len(),
        forall|i: int|
            0 <= i < volumes_of(texts).len() ==> (#[trigger] volumes_of(texts)[i]).name
                == volume_mounts_of(texts)[i].name,
    decreases texts.len(),
{
    if texts.len() > 0 {
        let before = texts.drop_last();
        law_mounts_name_their_volumes(before);
        assert forall|i: int| 0 <= i < volumes_of(texts).len() implies (
        #[trigger] volumes_of(texts)[i]).name == volume_mounts_of(texts)[i].name by {
            if i < mounts_of(before).len() {
                assert(mounts_of(texts)[i] == mounts_of(before)[i]);
                assert(volumes_of(before)[i].name == volume_mounts_of(before)[i].name);
            }
        }
    }
}

/// A mount that names a path of the host and a place mounts that path there, for
/// writing unless it says `ro`.
pub proof fn law_host_mount_binds_its_path(i: nat, path: Seq<char>, place: Seq<char>)
    requires
        !path.contains(':'),
        !place.contains(':'),
        path != "pvc"@,
    ensures
        mount_of(i, path + seq![':'] + place) matches Some(pair) && {
            &&& pair.0.host_path matches Some(host) && host.path == path
            &&& pair.0.persistent_volume_claim is None
            &&& pair.0.empty_dir is None
            &&& pair.1.mount_path == place
            &&& pair.1.read_only == Some(false)
            &&& pair.0.name == pair.1.name
        },
        mount_of(i, path + seq![':'] + place + seq![':'] + "ro"@) matches Some(pair) && {
            &&& pair.0.host_path matches Some(host) && host.path == path
            &&& pair.1.mount_path == place
            &&& pair.1.read_only == Some(true)
        },
{
    reveal_strlit("ro");
    let two = seq![path, place];
    crate::text::law_joined_reads_back(two, ':');
    assert(two.drop_last() =~= seq![path]);
    assert(crate::text::joined(seq![path], seq![':']) == path);
    assert(crate::text::joined(two, seq![':']) =~= path + seq![':'] + place);
    let three = seq![path, place, "ro"@];
    assert(!"ro"@.contains(':'));
    crate::text::law_joined_reads_back(three, ':');
    assert(three.drop_last() =~= two);
    assert(crate::text::joined(three, seq![':']) =~= path + seq![':'] + place + seq![':'] + "ro"@);
}

/// A mount that names a claim and a place mounts the claim there, for writing unless
/// it says `ro`.
pub proof fn law_claim_mount_binds_its_claim(i: nat, claim: Seq<char>, place: Seq<char>)
    requires
        !claim.contains(':'),
        !place.contains(':'),
    ensures
        mount_of(i, "pvc"@ + seq![':'] + claim + seq![':'] + place) matches Some(pair) && {
            &&& pair.0.persistent_volume_claim matches Some(bound) && bound.claim_name == claim
                && bound.read_only == Some(false)
            &&& pair.0.host_path is None
            &&& pair.1.mount_path == place
            &&& pair.1.read_only == Some(false)
            &&& pair.0.name == pair.1.name
        },
        mount_of(
            i,
            "pvc"@ + seq![':'] + claim + seq![':'] + place + seq![':'] + "ro"@,
        ) matches Some(pair) && {
            &&& pair.0.persistent_volume_claim matches Some(bound) && bound.claim_name == claim
                && bound.read_only == Some(true)
            &&& pair.1.mount_path == place
            &&& pair.1.read_only == Some(true)
        },
{
    reveal_strlit("ro");
    reveal_strlit("pvc");
    assert(!"ro"@.contains(':'));
    assert(!"pvc"@.contains(':'));
    let two = seq!["pvc"@, claim];
    assert(two.drop_last() =~= seq!["pvc"@]);
    assert(crate::text::joined(seq!["pvc"@], seq![':']) == "pvc"@);
    assert(crate::text::joined(two, seq![':']) =~= "pvc"@ + seq![':'] + claim);
    let three = seq!["pvc"@, claim, place];
    crate::text::law_joined_reads_back(three, ':');
    assert(three.drop_last() =~= two);
    assert(crate::text::joined(three, seq![':']) =~= "pvc"@ + seq![':'] + claim + seq![':'] + place);
    let four = seq!["pvc"@, claim, place, "ro"@];
    crate::text::law_joined_reads_back(four, ':');
    assert(four.drop_last() =~= three);
    assert(crate::text::joined(four, seq![':']) =~= "pvc"@ + seq![':'] + claim + seq![':'] + place + seq![':']
        + "ro"@);
}

/// No two mounts of a job share a volume, and every mount that can be read is made.
pub proof fn law_mounts_have_volumes_of_their_own(texts: Seq<Seq<char>>, i: int, j: int)
    requires
        0 <= i < j < texts.len(),
        mount_of(i as nat, texts[i]) is Some,
        mount_of(j as nat, texts[j]) is Some,
    ensures
        (mount_of(i as nat, texts[i])->0).0.name != (mount_of(j as nat, texts[j])->0).0.name,
        mounts_of(texts).contains(mount_of(i as nat, texts[i])->0),
        mounts_of(texts).contains(mount_of(j as nat, texts[j])->0),
{
    reveal_strlit("pvc-");
    reveal_strlit("hostpath-");
    lemma_mount_is_made(texts, i);
    lemma_mount_is_made(texts, j);
    let a = (mount_of(i as nat, texts[i])->0).0.name;
    let b = (mount_of(j as nat, texts[j])->0).0.name;
    if a == b {
        if a[0] == 'p' {
            assert(a.skip(4) =~= decimal(i as nat));
            assert(b.skip(4) =~= decimal(j as nat));
        } else {
            assert(a.skip(9) =~= decimal(i as nat));
            assert(b.skip(9) =~= decimal(j as nat));
        }
        crate::text::law_decimal_injective(i as nat, j as nat);
    }
}

proof fn lemma_mount_is_made(texts: Seq<Seq<char>>, i: int)
    requires
        0 <= i < texts.len(),
        mount_of(i as nat, texts[i]) is Some,
    ensures
        mounts_of(texts).contains(mount_of(i as nat, texts[i])->0),
    decreases texts.len(),
{
    let before = texts.drop_last();
    let pair = mount_of(i as nat, texts[i])->0;
    let all = mounts_of(texts);
    if i < before.len() {
        assert(before[i] == texts[i]);
        lemma_mount_is_made(before, i);
        let k = choose|k: int| 0 <= k < mounts_of(before).len() && mounts_of(before)[k] == pair;
        assert(all[k] == pair);
    } else {
        assert(all[all.len() - 1] == pair);
    }
}

} // verus!
