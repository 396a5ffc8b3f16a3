//! The class-version probe and the choice of the runtime's language version.
use vstd::prelude::*;
use crate::error::PackError;
use crate::text::{ends_with, has_prefix, has_suffix, starts_with};

verus! {

/// Number of class entries the probe looks at, at most.
pub const PROBE_LIMIT: usize = 200;

/// The first bytes of an archive entry, as read for the probe.
pub struct ClassHeader {
    pub name: String,
    /// Up to the first eight bytes of the entry.
    pub header: Vec<u8>,
}

/// The newest class file found by the probe.
#[derive(Debug, Clone)]
pub struct ClassVersionInfo {
    pub major_version: u16,
    pub java_version: u8,
    pub class_file: String,
}

/// Major version of a class file from its first bytes: the big-endian `u16`
/// at offset 6, after the `CA FE BA BE` magic.
pub open spec fn major_of(data: Seq<u8>) -> Option<u16> {
    if data.len() < 8 || data[0] != 0xCAu8 || data[1] != 0xFEu8 || data[2] != 0xBAu8 || data[3]
        != 0xBEu8 {
        None
    } else {
        Some((data[6] as int * 256 + data[7] as int) as u16)
    }
}

/// Language version of a class-file major version: `major - 44`, kept in a byte.
pub open spec fn language_version(major: u16) -> u8 {
    if major >= 44 {
        (major - 44) as u8
    } else {
        0
    }
}

/// Entries the probe reads: class files outside `META-INF/versions/`.
pub open spec fn is_probe_candidate(n: Seq<char>) -> bool {
    has_suffix(n, ".class"@) && !has_prefix(n, "META-INF/versions/"@)
}

pub open spec fn candidate_count(es: Seq<(Seq<char>, Seq<u8>)>) -> nat
    decreases es.len(),
{
    if es.len() == 0 {
        0
    } else {
        candidate_count(es.drop_last()) + if is_probe_candidate(es.last().0) {
            1nat
        } else {
            0nat
        }
    }
}

/// The probe over entries in archive order: among the first `PROBE_LIMIT`
/// candidates, those with a valid header; the first one with the highest
/// major version, as (major, name).
pub open spec fn probe(es: Seq<(Seq<char>, Seq<u8>)>) -> Option<(u16, Seq<char>)>
    decreases es.len(),
{
    if es.len() == 0 {
        None
    } else {
        let prev = probe(es.drop_last());
        let e = es.last();
        if !is_probe_candidate(e.0) || candidate_count(es.drop_last()) >= PROBE_LIMIT {
            prev
        } else {
            match major_of(e.1) {
                None => prev,
                Some(m) => match prev {
                    Some(p) => if p.0 >= m {
                        prev
                    } else {
                        Some((m, e.0))
                    },
                    None => Some((m, e.0)),
                },
            }
        }
    }
}

pub open spec fn header_views(es: Seq<ClassHeader>) -> Seq<(Seq<char>, Seq<u8>)> {
    es.map_values(|e: ClassHeader| (e.name@, e.header@))
}

/// What the probe reports, as the exported record.
pub open spec fn info_matches(r: Option<ClassVersionInfo>, p: Option<(u16, Seq<char>)>) -> bool {
    match (r, p) {
        (None, None) => true,
        (Some(i), Some(q)) => i.major_version == q.0 && i.java_version == language_version(q.0)
            && i.class_file@ == q.1,
        _ => false,
    }
}

/// Major version from a class file's first bytes.
pub fn read_class_major_version(data: &[u8]) -> (r: Option<u16>)
    ensures
        r == major_of(data@),
{
    if data.len() < 8 {
        return None;
    }
    if data[0] != 0xCA || data[1] != 0xFE || data[2] != 0xBA || data[3] != 0xBE {
        return None;
    }
    let major: u16 = (data[6] as u16) * 256 + data[7] as u16;
    Some(major)
}

/// Whether the probe reads an entry of this name.
pub fn is_class_candidate(name: &str) -> (r: bool)
    ensures
        r == is_probe_candidate(name@),
{
    ends_with(name, ".class") && !starts_with(name, "META-INF/versions/")
}

/// The newest class file among the first `PROBE_LIMIT` candidates.
pub fn detect_max_class_version(entries: &Vec<ClassHeader>) -> (r: Option<ClassVersionInfo>)
    ensures
        info_matches(r, probe(header_views(entries@))),
{
    let mut best: Option<ClassVersionInfo> = None;
    let mut checked: usize = 0;
    let mut i: usize = 0;
    while i < entries.len()
        invariant
            i <= entries@.len(),
            checked == candidate_count(header_views(entries@.subrange(0, i as int))),
            checked <= i,
            info_matches(best, probe(header_views(entries@.subrange(0, i as int)))),
        decreases entries@.len() - i,
    {
        let e = &entries[i];
        proof {
            let pre = header_views(entries@.subrange(0, i as int));
            let next = header_views(entries@.subrange(0, i + 1));
            assert(next.drop_last() =~= pre);
            assert(next.last() == (e.name@, e.header@));
        }
        if is_class_candidate(e.name.as_str()) {
            if checked < PROBE_LIMIT {
                match read_class_major_version(e.header.as_slice()) {
                    None => {},
                    Some(major) => {
                        let dominated = match &best {
                            Some(b) => b.major_version >= major,
                            None => false,
                        };
                        if !dominated {
                            let java_version: u8 = if major >= 44 {
                                (major - 44) as u8
                            } else {
                                0
                            };
                            best = Some(
                                ClassVersionInfo {
                                    major_version: major,
                                    java_version,
                                    class_file: e.name.clone(),
                                },
                            );
                        }
                    },
                }
            }
            checked += 1;
        }
        i += 1;
    }
    assert(entries@.subrange(0, entries@.len() as int) =~= entries@);
    best
}

/// The language version the runtime is built for, from the configured one and
/// what the probe found.
pub open spec fn resolved_version(detected: Option<ClassVersionInfo>, configured: u8, explicit: bool) -> Result<u8, PackError> {
    match detected {
        None => Ok(configured),
        Some(info) => if info.java_version <= configured {
            Ok(configured)
        } else if explicit {
            Err(
                PackError::JavaVersionMismatch {
                    required: info.java_version,
                    configured,
                    class_version: info.major_version,
                    class_file: info.class_file,
                },
            )
        } else {
            Ok(info.java_version)
        },
    }
}

/// Chooses the language version: the configured one unless the archive needs
/// a newer one, which is an error when the configured version was explicit.
pub fn resolve_java_version(detected: Option<ClassVersionInfo>, configured: u8, explicit: bool) -> (r: Result<u8, PackError>)
    ensures
        r == resolved_version(detected, configured, explicit),
{
    match detected {
        None => Ok(configured),
        Some(info) => {
            if info.java_version <= configured {
                Ok(configured)
            } else if explicit {
                Err(
                    PackError::JavaVersionMismatch {
                        required: info.java_version,
                        configured,
                        class_version: info.major_version,
                        class_file: info.class_file,
                    },
                )
            } else {
                Ok(info.java_version)
            }
        },
    }
}

/// The chosen version is never older than what the archive was compiled for,
/// nor than the configured one.
pub proof fn lemma_resolved_version_monotone(detected: Option<ClassVersionInfo>, configured: u8, explicit: bool)
    ensures
        match resolved_version(detected, configured, explicit) {
            Ok(v) => v >= configured && match detected {
                Some(info) => v >= info.java_version,
                None => true,
            },
            Err(_) => explicit,
        },
{
}

} // verus!
