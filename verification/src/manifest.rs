use vstd::prelude::*;
use vstd::string::StrSliceExecFns;

use crate::error::InstanceError;
use crate::numstr::{millis_of_decimal, parse_seconds_to_millis};
use crate::scoring::{groups_wf, MAX_FULL_SCORE, MAX_GROUPS, MAX_GROUP_TESTS};
use crate::yaml::{
    bool_of, entries_of, get_value_mapping, int_of, items_of, map_get_str, number_text_of, str_of,
    value_as_bool, value_as_i64, value_as_string, value_entries, value_get, value_get_str,
    value_items, value_number_text,
};

verus! {

/// The parsed, validated description of one task's grading parameters.
/// Time limits are in milliseconds; `limit` maps a language identifier
/// to a (time, memory) override pair; `groups` is the ordered
/// (full_score, test_count) table.
#[derive(Debug)]
pub struct Manifest {
    pub task_id: String,
    pub output_only: bool,
    pub time_limit_ms: Option<u64>,
    pub memory_limit: Option<u64>,
    pub limit: Option<Vec<(String, (u64, u64))>>,
    pub compile_files: Option<Vec<(String, Vec<String>)>>,
    pub checker: Option<String>,
    pub grouper: Option<String>,
    pub groups: Vec<(u64, u64)>,
}

/// The millisecond reading of an optional numeric value: its decimal
/// text parsed as seconds, when the value is numeric, the text well
/// formed, and the result within u64.
pub open spec fn opt_millis(ov: Option<serde_yaml::Value>) -> Option<int> {
    match ov {
        Some(v) => match number_text_of(v) {
            Some(t) => match millis_of_decimal(t) {
                Some(ms) => if ms <= u64::MAX {
                    Some(ms as int)
                } else {
                    None
                },
                None => None,
            },
            None => None,
        },
        None => None,
    }
}

/// The integer reading of an optional value.
pub open spec fn opt_int(ov: Option<serde_yaml::Value>) -> Option<int> {
    match ov {
        Some(v) => match int_of(v) {
            Some(x) => Some(x as int),
            None => None,
        },
        None => None,
    }
}

pub open spec fn spec_task_id(doc: serde_yaml::Mapping) -> Option<Seq<char>> {
    match map_get_str(doc, "task_id"@) {
        Some(v) => str_of(v),
        None => None,
    }
}

pub open spec fn spec_output_only(doc: serde_yaml::Mapping) -> bool {
    match map_get_str(doc, "output_only"@) {
        Some(v) => match bool_of(v) {
            Some(b) => b,
            None => false,
        },
        None => false,
    }
}

pub open spec fn spec_time_limit_ms(doc: serde_yaml::Mapping) -> Option<int> {
    opt_millis(map_get_str(doc, "time_limit"@))
}

pub open spec fn spec_memory_limit(doc: serde_yaml::Mapping) -> Option<int> {
    opt_int(map_get_str(doc, "memory_limit"@))
}

/// The textual reading of a top-level field, used for the checker and
/// grouper plugin names.
pub open spec fn spec_name(doc: serde_yaml::Mapping, key: Seq<char>) -> Option<Seq<char>> {
    match map_get_str(doc, key) {
        Some(v) => str_of(v),
        None => None,
    }
}

/// One override entry is sound: a textual language key, and positive
/// time and memory readings.
pub open spec fn limit_entry_ok(k: serde_yaml::Value, v: serde_yaml::Value) -> bool {
    &&& str_of(k) is Some
    &&& match opt_millis(value_get_str(v, "time_limit"@)) {
        Some(ms) => 0 < ms,
        None => false,
    }
    &&& match opt_int(value_get_str(v, "memory_limit"@)) {
        Some(x) => 0 < x,
        None => false,
    }
}

pub open spec fn spec_limit_entries(doc: serde_yaml::Mapping) -> Option<
    Seq<(serde_yaml::Value, serde_yaml::Value)>,
> {
    match map_get_str(doc, "limit"@) {
        Some(lv) => entries_of(lv),
        None => None,
    }
}

pub open spec fn limit_ok(doc: serde_yaml::Mapping) -> bool {
    match spec_limit_entries(doc) {
        Some(es) => forall|i: int|
            0 <= i < es.len() ==> limit_entry_ok((#[trigger] es[i]).0, es[i].1),
        None => true,
    }
}

/// One compile-files entry is sound: a textual language key and a
/// sequence of textual file names.
pub open spec fn cf_entry_ok(k: serde_yaml::Value, v: serde_yaml::Value) -> bool {
    &&& str_of(k) is Some
    &&& match items_of(v) {
        Some(fs) => forall|j: int| 0 <= j < fs.len() ==> str_of(#[trigger] fs[j]) is Some,
        None => false,
    }
}

pub open spec fn spec_cf_entries(doc: serde_yaml::Mapping) -> Option<
    Seq<(serde_yaml::Value, serde_yaml::Value)>,
> {
    match map_get_str(doc, "compile_files"@) {
        Some(v) => entries_of(v),
        None => None,
    }
}

pub open spec fn cf_ok(doc: serde_yaml::Mapping) -> bool {
    match spec_cf_entries(doc) {
        Some(es) => forall|i: int| 0 <= i < es.len() ==> cf_entry_ok((#[trigger] es[i]).0, es[i].1),
        None => true,
    }
}

/// The (full_score, tests) reading of one group item.
pub open spec fn group_item(item: serde_yaml::Value) -> Option<(int, int)> {
    match (opt_int(value_get_str(item, "full_score"@)), opt_int(value_get_str(item, "tests"@))) {
        (Some(f), Some(t)) => Some((f, t)),
        _ => None,
    }
}

/// One group item is sound: integer full_score and tests, the count
/// positive, both within the ceilings that keep scoring in u64.
pub open spec fn group_item_ok(item: serde_yaml::Value) -> bool {
    match group_item(item) {
        Some((f, t)) => 0 <= f <= MAX_FULL_SCORE && 0 < t <= MAX_GROUP_TESTS,
        None => false,
    }
}

pub open spec fn spec_group_items(doc: serde_yaml::Mapping) -> Option<Seq<serde_yaml::Value>> {
    match map_get_str(doc, "groups"@) {
        Some(v) => items_of(v),
        None => None,
    }
}

pub open spec fn groups_src_ok(doc: serde_yaml::Mapping) -> bool {
    match spec_group_items(doc) {
        Some(items) => items.len() <= MAX_GROUPS && forall|i: int|
            0 <= i < items.len() ==> group_item_ok(#[trigger] items[i]),
        None => false,
    }
}

/// The whole document describes a valid manifest: a textual task id, a
/// sound group table, a non-negative default memory limit, and sound
/// override and compile-files tables wherever they are mappings.
pub open spec fn manifest_ok(doc: serde_yaml::Mapping) -> bool {
    &&& spec_task_id(doc) is Some
    &&& (spec_memory_limit(doc) matches Some(x) ==> x >= 0)
    &&& limit_ok(doc)
    &&& cf_ok(doc)
    &&& groups_src_ok(doc)
}

pub open spec fn limit_entry_matches(
    out: (String, (u64, u64)),
    e: (serde_yaml::Value, serde_yaml::Value),
) -> bool {
    &&& str_of(e.0) == Some(out.0@)
    &&& opt_millis(value_get_str(e.1, "time_limit"@)) == Some(out.1.0 as int)
    &&& opt_int(value_get_str(e.1, "memory_limit"@)) == Some(out.1.1 as int)
}

pub open spec fn cf_entry_matches(
    out: (String, Vec<String>),
    e: (serde_yaml::Value, serde_yaml::Value),
) -> bool {
    &&& str_of(e.0) == Some(out.0@)
    &&& match items_of(e.1) {
        Some(fs) => out.1@.len() == fs.len() && forall|j: int|
            0 <= j < fs.len() ==> str_of(#[trigger] fs[j]) == Some(out.1@[j]@),
        None => false,
    }
}

/// The built manifest reads each field off the document exactly.
pub open spec fn matches_doc(m: Manifest, doc: serde_yaml::Mapping) -> bool {
    &&& Some(m.task_id@) == spec_task_id(doc)
    &&& m.output_only == spec_output_only(doc)
    &&& (match m.time_limit_ms {
        Some(x) => spec_time_limit_ms(doc) == Some(x as int),
        None => spec_time_limit_ms(doc) is None,
    })
    &&& (match m.memory_limit {
        Some(x) => spec_memory_limit(doc) == Some(x as int),
        None => spec_memory_limit(doc) is None,
    })
    &&& (match spec_limit_entries(doc) {
        Some(es) => m.limit matches Some(l) && l@.len() == es.len() && forall|i: int|
            0 <= i < es.len() ==> limit_entry_matches(#[trigger] l@[i], es[i]),
        None => m.limit is None,
    })
    &&& (match spec_cf_entries(doc) {
        Some(es) => m.compile_files matches Some(l) && l@.len() == es.len() && forall|i: int|
            0 <= i < es.len() ==> cf_entry_matches(#[trigger] l@[i], es[i]),
        None => m.compile_files is None,
    })
    &&& (match m.checker {
        Some(s) => spec_name(doc, "checker"@) == Some(s@),
        None => spec_name(doc, "checker"@) is None,
    })
    &&& (match m.grouper {
        Some(s) => spec_name(doc, "grouper"@) == Some(s@),
        None => spec_name(doc, "grouper"@) is None,
    })
    &&& (match spec_group_items(doc) {
        Some(items) => m.groups@.len() == items.len() && forall|i: int|
            0 <= i < items.len() ==> group_item(#[trigger] items[i]) == Some(
                (m.groups@[i].0 as int, m.groups@[i].1 as int),
            ),
        None => false,
    })
}

fn config_err(msg: &str) -> (e: InstanceError)
    ensures
        e is ConfigurationError,
{
    InstanceError::ConfigurationError(msg.to_owned())
}


fn parse_limit_entry(k: &serde_yaml::Value, v: &serde_yaml::Value) -> (r: Result<
    (String, (u64, u64)),
    InstanceError,
>)
    ensures
        match r {
            Ok(o) => limit_entry_ok(*k, *v) && limit_entry_matches(o, (*k, *v)),
            Err(e) => !limit_entry_ok(*k, *v) && e is ConfigurationError,
        },
{
    let key = match value_as_string(k) {
        Some(s) => s,
        None => {
            return Err(config_err("limit override key must be textual"));
        },
    };
    let t_val = match value_get(v, "time_limit") {
        Some(tv) => tv,
        None => {
            return Err(config_err("limit override lacks time_limit"));
        },
    };
    let tms = match value_number_text(&t_val) {
        Some(t) => parse_seconds_to_millis(t.as_str()),
        None => None,
    };
    let tms_v = match tms {
        Some(w) => w,
        None => {
            return Err(config_err("limit override time_limit must be numeric"));
        },
    };
    if tms_v == 0 {
        return Err(config_err("limit override time_limit must be positive"));
    }
    let m_val = match value_get(v, "memory_limit") {
        Some(mv) => mv,
        None => {
            return Err(config_err("limit override lacks memory_limit"));
        },
    };
    let mem_i = match value_as_i64(&m_val) {
        Some(x) => x,
        None => {
            return Err(config_err("limit override memory_limit must be integral"));
        },
    };
    if mem_i <= 0 {
        return Err(config_err("limit override memory_limit must be positive"));
    }
    Ok((key, (tms_v, mem_i as u64)))
}

fn parse_cf_entry(k: &serde_yaml::Value, v: &serde_yaml::Value) -> (r: Result<
    (String, Vec<String>),
    InstanceError,
>)
    ensures
        match r {
            Ok(o) => cf_entry_ok(*k, *v) && cf_entry_matches(o, (*k, *v)),
            Err(e) => !cf_entry_ok(*k, *v) && e is ConfigurationError,
        },
{
    let key = match value_as_string(k) {
        Some(s) => s,
        None => {
            return Err(config_err("compile_files key must be textual"));
        },
    };
    let fs = match value_items(v) {
        Some(f) => f,
        None => {
            return Err(config_err("compile_files entry must be a sequence"));
        },
    };
    let mut files: Vec<String> = Vec::new();
    let mut j: usize = 0;
    while j < fs.len()
        invariant
            items_of(*v) == Some(fs@),
            0 <= j <= fs@.len(),
            files@.len() == j,
            forall|l: int| 0 <= l < j ==> str_of(#[trigger] fs@[l]) == Some(files@[l]@),
        decreases fs@.len() - j,
    {
        match value_as_string(&fs[j]) {
            Some(f) => files.push(f),
            None => {
                return Err(config_err("compile_files name must be textual"));
            },
        }
        j = j + 1;
    }
    Ok((key, files))
}

fn parse_group_item(item: &serde_yaml::Value) -> (r: Result<(u64, u64), InstanceError>)
    ensures
        match r {
            Ok(g) => group_item_ok(*item) && group_item(*item) == Some(
                (g.0 as int, g.1 as int),
            ),
            Err(e) => !group_item_ok(*item) && e is ConfigurationError,
        },
{
    let f_val = match value_get(item, "full_score") {
        Some(v) => v,
        None => {
            return Err(config_err("group lacks full_score"));
        },
    };
    let f = match value_as_i64(&f_val) {
        Some(x) => x,
        None => {
            return Err(config_err("group full_score must be integral"));
        },
    };
    if f < 0 || f > (MAX_FULL_SCORE as i64) {
        return Err(config_err("group full_score is out of range"));
    }
    let t_val = match value_get(item, "tests") {
        Some(v) => v,
        None => {
            return Err(config_err("group lacks a test count"));
        },
    };
    let t = match value_as_i64(&t_val) {
        Some(x) => x,
        None => {
            return Err(config_err("group test count must be integral"));
        },
    };
    if t <= 0 || t > (MAX_GROUP_TESTS as i64) {
        return Err(config_err("group test count is out of range"));
    }
    Ok((f as u64, t as u64))
}

impl Manifest {
    /// Builds the validated manifest from an already-parsed document
    /// mapping. Succeeds exactly on documents that describe a valid
    /// manifest; any missing required field or invariant violation is
    /// a configuration error, reported immediately.
    pub fn from(doc: &serde_yaml::Mapping) -> (r: Result<Manifest, InstanceError>)
        ensures
            match r {
                Ok(m) => manifest_ok(*doc) && matches_doc(m, *doc) && groups_wf(m.groups@),
                Err(e) => !manifest_ok(*doc) && e is ConfigurationError,
            },
    {
        let task_id_val = get_value_mapping(doc, "task_id");
        let task_id = match value_as_string(&task_id_val) {
            Some(s) => s,
            None => {
                return Err(config_err("manifest is missing a textual task_id"));
            },
        };
        let oo_val = get_value_mapping(doc, "output_only");
        let output_only = match value_as_bool(&oo_val) {
            Some(b) => b,
            None => false,
        };
        let tl_val = get_value_mapping(doc, "time_limit");
        let time_limit_ms: Option<u64> = match value_number_text(&tl_val) {
            Some(t) => parse_seconds_to_millis(t.as_str()),
            None => None,
        };
        let ml_val = get_value_mapping(doc, "memory_limit");
        let memory_limit: Option<u64> = match value_as_i64(&ml_val) {
            Some(x) => {
                if x < 0 {
                    return Err(config_err("manifest memory_limit must not be negative"));
                }
                Some(x as u64)
            },
            None => None,
        };
        let limit_val = get_value_mapping(doc, "limit");
        let limit: Option<Vec<(String, (u64, u64))>> = match value_entries(&limit_val) {
            None => None,
            Some(es) => {
                let mut out: Vec<(String, (u64, u64))> = Vec::new();
                let mut i: usize = 0;
                while i < es.len()
                    invariant
                        spec_limit_entries(*doc) == Some(es@),
                        0 <= i <= es@.len(),
                        out@.len() == i,
                        forall|j: int|
                            0 <= j < i ==> limit_entry_matches(#[trigger] out@[j], es@[j])
                                && limit_entry_ok(es@[j].0, es@[j].1),
                    decreases es@.len() - i,
                {
                    match parse_limit_entry(&es[i].0, &es[i].1) {
                        Ok(o) => out.push(o),
                        Err(e) => {
                            proof {
                                assert(spec_limit_entries(*doc) == Some(es@));
                                assert(!limit_ok(*doc)) by {
                                    if limit_ok(*doc) {
                                        assert(match spec_limit_entries(*doc) {
                                            Some(ss) => limit_entry_ok(
                                                (ss[i as int]).0,
                                                ss[i as int].1,
                                            ),
                                            None => true,
                                        });
                                        assert(limit_entry_ok(
                                            (es@[i as int]).0,
                                            es@[i as int].1,
                                        ));
                                    }
                                }
                            }
                            return Err(e);
                        },
                    }
                    i = i + 1;
                }
                proof {
                    assert forall|j: int| 0 <= j < es@.len() implies limit_entry_ok(
                        (#[trigger] es@[j]).0,
                        es@[j].1,
                    ) by {
                        assert(out@[j] == out@[j]);
                    }
                }
                Some(out)
            },
        };
        let cf_val = get_value_mapping(doc, "compile_files");
        let compile_files: Option<Vec<(String, Vec<String>)>> = match value_entries(&cf_val) {
            None => None,
            Some(es) => {
                let mut out: Vec<(String, Vec<String>)> = Vec::new();
                let mut i: usize = 0;
                while i < es.len()
                    invariant
                        spec_cf_entries(*doc) == Some(es@),
                        0 <= i <= es@.len(),
                        out@.len() == i,
                        forall|j: int|
                            0 <= j < i ==> cf_entry_matches(#[trigger] out@[j], es@[j])
                                && cf_entry_ok(es@[j].0, es@[j].1),
                    decreases es@.len() - i,
                {
                    match parse_cf_entry(&es[i].0, &es[i].1) {
                        Ok(o) => out.push(o),
                        Err(e) => {
                            proof {
                                assert(spec_cf_entries(*doc) == Some(es@));
                                assert(!cf_ok(*doc)) by {
                                    if cf_ok(*doc) {
                                        assert(match spec_cf_entries(*doc) {
                                            Some(ss) => cf_entry_ok(
                                                (ss[i as int]).0,
                                                ss[i as int].1,
                                            ),
                                            None => true,
                                        });
                                        assert(cf_entry_ok((es@[i as int]).0, es@[i as int].1));
                                    }
                                }
                            }
                            return Err(e);
                        },
                    }
                    i = i + 1;
                }
                proof {
                    assert forall|j: int| 0 <= j < es@.len() implies cf_entry_ok(
                        (#[trigger] es@[j]).0,
                        es@[j].1,
                    ) by {
                        assert(out@[j] == out@[j]);
                    }
                }
                Some(out)
            },
        };
        let checker_val = get_value_mapping(doc, "checker");
        let checker = value_as_string(&checker_val);
        let grouper_val = get_value_mapping(doc, "grouper");
        let grouper = value_as_string(&grouper_val);
        let g_val = get_value_mapping(doc, "groups");
        let items = match value_items(&g_val) {
            Some(it) => it,
            None => {
                return Err(config_err("manifest groups must be a sequence"));
            },
        };
        if items.len() > (MAX_GROUPS as usize) {
            return Err(config_err("manifest holds too many groups"));
        }
        let mut groups: Vec<(u64, u64)> = Vec::new();
        let mut i: usize = 0;
        while i < items.len()
            invariant
                spec_group_items(*doc) == Some(items@),
                items@.len() <= MAX_GROUPS,
                0 <= i <= items@.len(),
                groups@.len() == i,
                forall|j: int|
                    0 <= j < i ==> group_item(#[trigger] items@[j]) == Some(
                        ((#[trigger] groups@[j]).0 as int, groups@[j].1 as int),
                    ) && group_item_ok(items@[j]),
            decreases items@.len() - i,
        {
            match parse_group_item(&items[i]) {
                Ok(g) => groups.push(g),
                Err(e) => {
                    proof {
                        assert(spec_group_items(*doc) == Some(items@));
                        assert(!groups_src_ok(*doc)) by {
                            if groups_src_ok(*doc) {
                                assert(match spec_group_items(*doc) {
                                    Some(ss) => group_item_ok(ss[i as int]),
                                    None => true,
                                });
                                assert(group_item_ok(items@[i as int]));
                            }
                        }
                    }
                    return Err(e);
                },
            }
            i = i + 1;
        }
        proof {
            assert forall|j: int| 0 <= j < items@.len() implies group_item_ok(
                #[trigger] items@[j],
            ) by {
                assert(groups@[j] == groups@[j]);
            }
            assert(groups_wf(groups@)) by {
                assert forall|j: int| 0 <= j < groups@.len() implies 0 < (#[trigger] groups@[j]).1
                    <= MAX_GROUP_TESTS && groups@[j].0 <= MAX_FULL_SCORE by {
                    assert(groups@[j] == groups@[j] && items@[j] == items@[j]);
                    assert(group_item_ok(items@[j]));
                }
            }
        }
        Ok(
            Manifest {
                task_id,
                output_only,
                time_limit_ms,
                memory_limit,
                limit,
                compile_files,
                checker,
                grouper,
                groups,
            },
        )
    }
}

/// The first override pair recorded for the language, if any.
pub open spec fn spec_lookup_limit(l: Seq<(String, (u64, u64))>, language: Seq<char>) -> Option<
    (u64, u64),
>
    decreases l.len(),
{
    if l.len() == 0 {
        None
    } else if l[0].0@ == language {
        Some(l[0].1)
    } else {
        spec_lookup_limit(l.skip(1), language)
    }
}

impl Manifest {
    /// Resolves the effective (time, memory) limits for a language:
    /// the per-language override when the manifest holds one, the
    /// manifest's defaults otherwise.
    pub fn effective_limit(&self, language: &str) -> (r: (Option<u64>, Option<u64>))
        ensures
            match self.limit {
                Some(l) => match spec_lookup_limit(l@, language@) {
                    Some(p) => r == (Some(p.0), Some(p.1)),
                    None => r == (self.time_limit_ms, self.memory_limit),
                },
                None => r == (self.time_limit_ms, self.memory_limit),
            },
    {
        let lang_owned: String = language.to_owned();
        match &self.limit {
            Some(l) => {
                proof {
                    assert(l@.skip(0) =~= l@);
                }
                let mut i: usize = 0;
                while i < l.len()
                    invariant
                        self.limit matches Some(ll) && ll == l,
                        0 <= i <= l@.len(),
                        spec_lookup_limit(l@, language@) == spec_lookup_limit(
                            l@.skip(i as int),
                            language@,
                        ),
                        lang_owned@ == language@,
                        forall|j: int| 0 <= j < i ==> (#[trigger] l@[j]).0@ != language@,
                    decreases l@.len() - i,
                {
                    proof {
                        assert(l@.skip(i as int)[0] == l@[i as int]);
                    }
                    if l[i].0.eq(&lang_owned) {
                        return (Some(l[i].1.0), Some(l[i].1.1));
                    }
                    proof {
                        assert(l@.skip(i as int).skip(1) =~= l@.skip(i as int + 1));
                    }
                    i = i + 1;
                }
                (self.time_limit_ms, self.memory_limit)
            },
            None => (self.time_limit_ms, self.memory_limit),
        }
    }
}

} // verus!
