//! Where the server keeps its database and runtime file.
use vstd::prelude::*;
use crate::error::SlurmError;
use crate::text::string_views;

verus! {

/// The data directory, as path segments to join: the override when one is
/// set; on Windows `%APPDATA%/slurm-assistant`; else
/// `$XDG_STATE_HOME/slurm-assistant`, or `$HOME/.local/share/slurm-assistant`.
/// `Err` names the variable that is missing.
pub open spec fn data_dir_spec(
    override_dir: Option<Seq<char>>,
    windows: bool,
    appdata: Option<Seq<char>>,
    xdg_state: Option<Seq<char>>,
    home: Option<Seq<char>>,
) -> Result<Seq<Seq<char>>, Seq<char>> {
    match override_dir {
        Some(d) => Ok(seq![d]),
        None => if windows {
            match appdata {
                Some(a) => Ok(seq![a, "slurm-assistant"@]),
                None => Err("APPDATA"@),
            }
        } else {
            match xdg_state {
                Some(x) => Ok(seq![x, "slurm-assistant"@]),
                None => match home {
                    Some(h) => Ok(seq![h, ".local"@, "share"@, "slurm-assistant"@]),
                    None => Err("HOME"@),
                },
            }
        },
    }
}

pub open spec fn opt_str(o: Option<&str>) -> Option<Seq<char>> {
    match o {
        Some(s) => Some(s@),
        None => None,
    }
}

fn push_seg(v: &mut Vec<String>, s: &str)
    ensures
        string_views(final(v)@) == string_views(old(v)@).push(s@),
{
    let ghost before = string_views(v@);
    v.push(s.to_owned());
    assert(string_views(v@) =~= before.push(s@));
}

/// The data directory as path segments, from the values of
/// `SLURM_ASSISTANT_DATA_DIR`, `APPDATA`, `XDG_STATE_HOME` and `HOME`
/// (`None` when unset) and whether the platform is Windows.
pub fn data_dir_segments(
    override_dir: Option<&str>,
    windows: bool,
    appdata: Option<&str>,
    xdg_state: Option<&str>,
    home: Option<&str>,
) -> (r: Result<Vec<String>, SlurmError>)
    ensures
        match data_dir_spec(opt_str(override_dir), windows, opt_str(appdata), opt_str(xdg_state), opt_str(home)) {
            Ok(segs) => r matches Ok(v) && string_views(v@) == segs,
            Err(name) => r matches Err(SlurmError::EnvNotSet(n)) && n@ == name,
        },
{
    let mut v: Vec<String> = Vec::new();
    match override_dir {
        Some(d) => {
            push_seg(&mut v, d);
        },
        None => {
            if windows {
                match appdata {
                    Some(a) => {
                        push_seg(&mut v, a);
                        push_seg(&mut v, "slurm-assistant");
                    },
                    None => {
                        return Err(SlurmError::EnvNotSet("APPDATA".to_owned()));
                    },
                }
            } else {
                match xdg_state {
                    Some(x) => {
                        push_seg(&mut v, x);
                        push_seg(&mut v, "slurm-assistant");
                    },
                    None => match home {
                        Some(h) => {
                            push_seg(&mut v, h);
                            push_seg(&mut v, ".local");
                            push_seg(&mut v, "share");
                            push_seg(&mut v, "slurm-assistant");
                        },
                        None => {
                            return Err(SlurmError::EnvNotSet("HOME".to_owned()));
                        },
                    },
                }
            }
        },
    }
    proof {
        let spec = data_dir_spec(opt_str(override_dir), windows, opt_str(appdata), opt_str(xdg_state), opt_str(home));
        assert(spec matches Ok(segs) && string_views(v@) =~= segs);
    }
    Ok(v)
}

} // verus!
