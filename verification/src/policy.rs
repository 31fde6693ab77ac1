//! Policy documents: a keyed, section-based text format declaring vault
//! bind-mounts. Each `[[vaults]]` header opens one vault entry; the lines
//! below it assign `source`, `target` and optionally `readonly` (which
//! defaults to true). Values may be wrapped in double quotes. An entry
//! must assign source and target, and its target must be a valid vault
//! target; any violation is a policy-load error and the room is not
//! spawned.

use vstd::prelude::*;

use crate::errs::Bay0Error;
use crate::text::find_newline;
use crate::text::spec_nl_pos;
use crate::text::spec_trim;
use crate::text::str_eq;
use crate::text::trim;
use crate::vault::check_vault_target;
use crate::vault::valid_vault_target;
use crate::vault::VaultMount;
use crate::vault::VaultView;

verus! {

/// The lines of a document, split on newline; a document without a final
/// newline still yields its last line.
pub open spec fn spec_lines(s: Seq<char>) -> Seq<Seq<char>>
    decreases s.len(),
{
    if s.len() == 0 {
        Seq::empty()
    } else {
        let p = spec_nl_pos(s) as int;
        if p < s.len() {
            seq![s.take(p)] + spec_lines(s.skip(p + 1))
        } else {
            seq![s]
        }
    }
}

/// Splits a document into its lines.
pub fn split_lines(text: &str) -> (r: Vec<String>)
    ensures
        r@.map_values(|t: String| t@) == spec_lines(text@),
{
    let n = text.unicode_len();
    proof {
        assert(text@.skip(0) =~= text@);
    }
    let mut out: Vec<String> = Vec::new();
    let mut pos: usize = 0;
    while pos < n
        invariant
            0 <= pos <= n,
            n == text@.len(),
            out@.map_values(|t: String| t@) + spec_lines(text@.skip(pos as int)) == spec_lines(
                text@,
            ),
        decreases n - pos,
    {
        let ghost rest = text@.skip(pos as int);
        let ghost outv = out@.map_values(|t: String| t@);
        let tail = text.substring_char(pos, n);
        proof {
            assert(tail@ =~= rest);
        }
        let k = find_newline(tail);
        proof {
            crate::text::lemma_nl_pos_le(rest);
        }
        let line_end = pos + k;
        let line = text.substring_char(pos, line_end).to_owned();
        proof {
            assert(line@ =~= rest.take(spec_nl_pos(rest) as int));
            assert(out@.push(line).map_values(|t: String| t@) =~= outv + seq![line@]);
        }
        if line_end < n {
            proof {
                assert(rest.skip(spec_nl_pos(rest) as int + 1) =~= text@.skip(line_end as int + 1));
                assert(outv + (seq![line@] + spec_lines(text@.skip(line_end as int + 1))) =~= (outv
                    + seq![line@]) + spec_lines(text@.skip(line_end as int + 1)));
            }
            out.push(line);
            pos = line_end + 1;
        } else {
            proof {
                assert(spec_nl_pos(rest) == rest.len());
                assert(line@ =~= rest);
                assert(spec_lines(rest) == seq![rest]);
                assert(text@.skip(n as int) =~= Seq::<char>::empty());
            }
            out.push(line);
            pos = n;
        }
    }
    proof {
        assert(text@.skip(pos as int) =~= Seq::<char>::empty());
        assert(out@.map_values(|t: String| t@) + Seq::<Seq<char>>::empty() =~= out@.map_values(
            |t: String| t@,
        ));
    }
    out
}

/// Index of the first `=` of a line, or its length if there is none.
pub open spec fn spec_eq_pos(s: Seq<char>) -> nat
    decreases s.len(),
{
    if s.len() == 0 {
        0
    } else if s[0] == '=' {
        0
    } else {
        1 + spec_eq_pos(s.drop_first())
    }
}

/// Finds the first `=`, or returns the length if there is none.
fn find_eq(s: &str) -> (r: usize)
    ensures
        r == spec_eq_pos(s@),
        r <= s@.len(),
{
    let n = s.unicode_len();
    proof {
        assert(s@.skip(0) =~= s@);
    }
    let mut i: usize = 0;
    while i < n && s.get_char(i) != '='
        invariant
            0 <= i <= n,
            n == s@.len(),
            spec_eq_pos(s@) == i + spec_eq_pos(s@.skip(i as int)),
        decreases n - i,
    {
        proof {
            assert(s@.skip(i as int)[0] == s@[i as int]);
            assert(s@.skip(i as int).drop_first() =~= s@.skip(i as int + 1));
        }
        i += 1;
    }
    proof {
        if i < n {
            assert(s@.skip(i as int)[0] == s@[i as int]);
            assert(spec_eq_pos(s@.skip(i as int)) == 0);
        } else {
            assert(s@.skip(i as int) =~= Seq::<char>::empty());
        }
    }
    i
}

/// A value with one pair of surrounding double quotes removed.
pub open spec fn spec_unquote(v: Seq<char>) -> Seq<char> {
    if v.len() >= 2 && v[0] == '"' && v.last() == '"' {
        v.subrange(1, v.len() - 1)
    } else {
        v
    }
}

/// Strips one pair of surrounding double quotes, if present.
fn unquote(v: &str) -> (r: &str)
    ensures
        r@ == spec_unquote(v@),
{
    let n = v.unicode_len();
    if n >= 2 && v.get_char(0) == '"' && v.get_char(n - 1) == '"' {
        v.substring_char(1, n - 1)
    } else {
        v
    }
}

/// A vault entry in the middle of being read.
pub struct PolicyPartial {
    pub source: Option<Seq<char>>,
    pub target: Option<Seq<char>>,
    pub readonly: bool,
}

/// A fresh entry: nothing assigned, read-only by default.
pub open spec fn spec_fresh_partial() -> PolicyPartial {
    PolicyPartial { source: None, target: None, readonly: true }
}

/// Closes an entry: source and target must have been assigned and the
/// target must be valid, else the document is rejected.
pub open spec fn spec_finish(done: Seq<VaultView>, cur: PolicyPartial) -> Option<Seq<VaultView>> {
    match (cur.source, cur.target) {
        (Some(s), Some(t)) => if valid_vault_target(t) {
            Some(done.push(VaultView { source: s, target: t, readonly: cur.readonly }))
        } else {
            None
        },
        _ => None,
    }
}

/// The meaning of a policy document, line by line: `done` holds the
/// closed entries, `cur` the open one. `None` is a policy-load error:
/// an assignment outside a section, an unknown key, a line without `=`,
/// a bad `readonly` value, or an entry closed without a valid source
/// and target.
pub open spec fn spec_policy_fold(
    lines: Seq<Seq<char>>,
    done: Seq<VaultView>,
    cur: Option<PolicyPartial>,
) -> Option<Seq<VaultView>>
    decreases lines.len(),
{
    if lines.len() == 0 {
        match cur {
            None => Some(done),
            Some(c) => spec_finish(done, c),
        }
    } else {
        let l = spec_trim(lines[0]);
        let rest = lines.drop_first();
        if l.len() == 0 {
            spec_policy_fold(rest, done, cur)
        } else if l == "[[vaults]]"@ {
            match cur {
                None => spec_policy_fold(rest, done, Some(spec_fresh_partial())),
                Some(c) => match spec_finish(done, c) {
                    Some(d) => spec_policy_fold(rest, d, Some(spec_fresh_partial())),
                    None => None,
                },
            }
        } else {
            let p = spec_eq_pos(l) as int;
            if p >= l.len() {
                None
            } else {
                let key = spec_trim(l.take(p));
                let value = spec_unquote(spec_trim(l.skip(p + 1)));
                match cur {
                    None => None,
                    Some(c) => if key == "source"@ {
                        spec_policy_fold(
                            rest,
                            done,
                            Some(PolicyPartial { source: Some(value), ..c }),
                        )
                    } else if key == "target"@ {
                        spec_policy_fold(
                            rest,
                            done,
                            Some(PolicyPartial { target: Some(value), ..c }),
                        )
                    } else if key == "readonly"@ {
                        if value == "true"@ {
                            spec_policy_fold(rest, done, Some(PolicyPartial { readonly: true, ..c }))
                        } else if value == "false"@ {
                            spec_policy_fold(
                                rest,
                                done,
                                Some(PolicyPartial { readonly: false, ..c }),
                            )
                        } else {
                            None
                        }
                    } else {
                        None
                    },
                }
            }
        }
    }
}

/// What a policy document declares, or `None` if it is malformed.
pub open spec fn spec_parse_policy(s: Seq<char>) -> Option<Seq<VaultView>> {
    spec_policy_fold(spec_lines(s), Seq::empty(), None)
}

/// Parses a policy document into its vault mounts. Returns the declared
/// vaults exactly when the document is well-formed; a malformed document
/// is a policy-load error carrying the line it failed on.
pub fn parse_policy(text: &str) -> (r: Result<Vec<VaultMount>, Bay0Error>)
    ensures
        r matches Ok(vs) ==> spec_parse_policy(text@) == Some(vs@.map_values(|v: VaultMount| v@)),
        r matches Err(e) ==> spec_parse_policy(text@) is None && e is PolicyParseFailure,
{
    let lines = split_lines(text);
    let ghost linesv = lines@.map_values(|t: String| t@);
    proof {
        assert(linesv.skip(0) =~= linesv);
    }
    let mut done: Vec<VaultMount> = Vec::new();
    proof {
        assert(done@.map_values(|v: VaultMount| v@) =~= Seq::<VaultView>::empty());
    }
    let mut in_section: bool = false;
    let mut src: Option<String> = None;
    let mut tgt: Option<String> = None;
    let mut ro: bool = true;
    let n = lines.len();
    let mut i: usize = 0;
    while i < n
        invariant
            0 <= i <= n,
            n == lines@.len(),
            linesv == lines@.map_values(|t: String| t@),
            spec_parse_policy(text@) == spec_policy_fold(
                linesv.skip(i as int),
                done@.map_values(|v: VaultMount| v@),
                if in_section {
                    Some(
                        PolicyPartial {
                            source: match src {
                                Some(s) => Some(s@),
                                None => None,
                            },
                            target: match tgt {
                                Some(t) => Some(t@),
                                None => None,
                            },
                            readonly: ro,
                        },
                    )
                } else {
                    None
                },
            ),
        decreases n - i,
    {
        let ghost donev = done@.map_values(|v: VaultMount| v@);
        let ghost curv: Option<PolicyPartial> = if in_section {
            Some(
                PolicyPartial {
                    source: match &src {
                        Some(s) => Some(s@),
                        None => None,
                    },
                    target: match &tgt {
                        Some(t) => Some(t@),
                        None => None,
                    },
                    readonly: ro,
                },
            )
        } else {
            None
        };
        proof {
            assert(linesv.skip(i as int)[0] == linesv[i as int]);
            assert(linesv.skip(i as int).drop_first() =~= linesv.skip(i as int + 1));
            assert(linesv[i as int] == lines@[i as int]@);
        }
        let lt = trim(lines[i].as_str());
        if lt.unicode_len() == 0 {
            i += 1;
            continue ;
        }
        if str_eq(lt, "[[vaults]]") {
            if in_section {
                match close_entry(&mut done, &src, &tgt, ro, i) {
                    Ok(()) => (),
                    Err(e) => {
                        proof {
                            assert(spec_finish(donev, curv->Some_0) is None);
                        }
                        return Err(e);
                    },
                }
                proof {
                    assert(done@.map_values(|v: VaultMount| v@) == spec_finish(
                        donev,
                        curv->Some_0,
                    )->Some_0);
                }
            }
            in_section = true;
            src = None;
            tgt = None;
            ro = true;
            i += 1;
            continue ;
        }
        let p = find_eq(lt);
        if p >= lt.unicode_len() {
            return Err(
                Bay0Error::PolicyParseFailure { line: i, reason: "expected a key = value line" },
            );
        }
        let key = trim(lt.substring_char(0, p));
        let raw_value = trim(lt.substring_char(p + 1, lt.unicode_len()));
        let value = unquote(raw_value);
        proof {
            assert(lt@.take(p as int) =~= lt@.subrange(0, p as int));
            assert(lt@.skip(p as int + 1) =~= lt@.subrange(p as int + 1, lt@.len() as int));
        }
        if !in_section {
            return Err(
                Bay0Error::PolicyParseFailure {
                    line: i,
                    reason: "assignment outside a vaults section",
                },
            );
        }
        if str_eq(key, "source") {
            src = Some(value.to_owned());
        } else if str_eq(key, "target") {
            tgt = Some(value.to_owned());
        } else if str_eq(key, "readonly") {
            if str_eq(value, "true") {
                ro = true;
            } else if str_eq(value, "false") {
                ro = false;
            } else {
                return Err(
                    Bay0Error::PolicyParseFailure {
                        line: i,
                        reason: "readonly must be true or false",
                    },
                );
            }
        } else {
            return Err(Bay0Error::PolicyParseFailure { line: i, reason: "unknown policy key" });
        }
        i += 1;
    }
    proof {
        assert(linesv.skip(n as int) =~= Seq::<Seq<char>>::empty());
    }
    if in_section {
        let ghost donev = done@.map_values(|v: VaultMount| v@);
        let ghost curv = PolicyPartial {
            source: match &src {
                Some(s) => Some(s@),
                None => None,
            },
            target: match &tgt {
                Some(t) => Some(t@),
                None => None,
            },
            readonly: ro,
        };
        match close_entry(&mut done, &src, &tgt, ro, n) {
            Ok(()) => (),
            Err(e) => {
                proof {
                    assert(spec_finish(donev, curv) is None);
                }
                return Err(e);
            },
        }
        proof {
            assert(done@.map_values(|v: VaultMount| v@) == spec_finish(donev, curv)->Some_0);
        }
    }
    Ok(done)
}

/// Closes the open vault entry: source and target must be assigned and
/// the target valid; on success the entry joins the finished list.
fn close_entry(
    done: &mut Vec<VaultMount>,
    src: &Option<String>,
    tgt: &Option<String>,
    ro: bool,
    line: usize,
) -> (r: Result<(), Bay0Error>)
    ensures
        ({
            let cur = PolicyPartial {
                source: match src {
                    Some(s) => Some(s@),
                    None => None,
                },
                target: match tgt {
                    Some(t) => Some(t@),
                    None => None,
                },
                readonly: ro,
            };
            let donev = old(done)@.map_values(|v: VaultMount| v@);
            match r {
                Ok(()) => spec_finish(donev, cur) == Some(
                    final(done)@.map_values(|v: VaultMount| v@),
                ),
                Err(e) => spec_finish(donev, cur) is None && e is PolicyParseFailure
                    && final(done)@ == old(done)@,
            }
        }),
{
    let ghost donev = done@.map_values(|v: VaultMount| v@);
    let s = match src {
        Some(s) => s.clone(),
        None => {
            return Err(
                Bay0Error::PolicyParseFailure { line, reason: "vault entry without a source" },
            );
        },
    };
    let t = match tgt {
        Some(t) => t.clone(),
        None => {
            return Err(
                Bay0Error::PolicyParseFailure { line, reason: "vault entry without a target" },
            );
        },
    };
    if !check_vault_target(t.as_str()) {
        return Err(Bay0Error::PolicyParseFailure { line, reason: "invalid vault target" });
    }
    let v = VaultMount { source: s, target: t, readonly: ro };
    proof {
        assert(done@.push(v).map_values(|w: VaultMount| w@) =~= donev.push(v@));
    }
    done.push(v);
    Ok(())
}

} // verus!
