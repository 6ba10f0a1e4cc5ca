//! The build cache: recorded outputs keyed by fingerprints of files and
//! packages, and whether it has changed since it was loaded.
use std::collections::HashMap;

use vstd::prelude::*;

use crate::output::{BuildkOutput, PartialConclusion};

verus! {

broadcast use vstd::std_specs::hash::group_hash_axioms;

/// What was recorded for one cached item.
#[derive(Clone, Debug)]
pub struct Output {
    pub action: String,
    pub success: bool,
    pub status: String,
    pub code: Option<i32>,
    pub stdout: String,
    pub stderr: String,
}

impl Output {
    /// An empty record: no action, not successful, no code, nothing written.
    pub fn empty() -> (res: Output)
        ensures
            res.action@.len() == 0,
            !res.success,
            res.status@.len() == 0,
            res.code is None,
            res.stdout@.len() == 0,
            res.stderr@.len() == 0,
    {
        Output {
            action: String::new(),
            success: false,
            status: String::new(),
            code: None,
            stdout: String::new(),
            stderr: String::new(),
        }
    }

    /// Records the action that produced the output.
    pub fn set_action(&mut self, action: String)
        ensures
            *final(self) == (Output { action, ..*old(self) }),
    {
        self.action = action;
    }

    /// Records what the action wrote to standard output.
    pub fn set_stdout(&mut self, stdout: String)
        ensures
            *final(self) == (Output { stdout, ..*old(self) }),
    {
        self.stdout = stdout;
    }

    /// Marks the action as successful.
    pub fn set_success(&mut self)
        ensures
            *final(self) == (Output { success: true, ..*old(self) }),
    {
        self.success = true;
    }
}

impl Default for Output {
    fn default() -> (res: Output)
        ensures
            res.action@.len() == 0,
            !res.success,
            res.status@.len() == 0,
            res.code is None,
            res.stdout@.len() == 0,
            res.stderr@.len() == 0,
    {
        Output::empty()
    }
}

/// Caching a source file whose fingerprint is `key` took the cache from
/// `c0` to `c1` and gave `r`: `CACHED`, with nothing changed, when the key
/// was recorded already; otherwise `SUCCESS`, with the key now recorded as a
/// successful action named after the file that wrote nothing, every other
/// record kept, and the cache dirty.
pub open spec fn cache_file_step(c0: Cache, key: u64, file: Seq<char>, c1: Cache, r: PartialConclusion) -> bool {
    if c0.data.outputs@.contains_key(key) {
        r == PartialConclusion::CACHED && c1 == c0
    } else {
        &&& r == PartialConclusion::SUCCESS
        &&& c1.dirty
        &&& c1.location == c0.location
        &&& c1.data.kotlinc_fingerprint == c0.data.kotlinc_fingerprint
        &&& c1.data.successes@ == c0.data.successes@
        &&& c1.data.outputs@.dom() == c0.data.outputs@.dom().insert(key)
        &&& forall|k: u64|
            k != key && c0.data.outputs@.contains_key(k) ==> #[trigger] c1.data.outputs@[k]
                == c0.data.outputs@[k]
        &&& c1.data.outputs@[key].action@ == file
        &&& c1.data.outputs@[key].success
        &&& c1.data.outputs@[key].stdout@.len() == 0
    }
}

/// Inserting `output` under `key` took the cache from `c0` to `c1`: the
/// output is recorded under the key, replacing what was there, every other
/// record is kept, and the cache is dirty.
pub open spec fn insert_step(c0: Cache, key: u64, output: Output, c1: Cache) -> bool {
    &&& c1.data.outputs@ == c0.data.outputs@.insert(key, output)
    &&& c1.data.successes@ == c0.data.successes@
    &&& c1.data.kotlinc_fingerprint == c0.data.kotlinc_fingerprint
    &&& c1.dirty
    &&& c1.location == c0.location
}

/// The recorded outputs, keyed by fingerprint.
#[derive(Clone, Debug)]
pub struct CacheData {
    pub kotlinc_fingerprint: u64,
    pub outputs: HashMap<u64, Output>,
    pub successes: HashMap<u64, bool>,
}

impl CacheData {
    /// No recorded outputs.
    pub fn empty() -> (res: CacheData)
        ensures
            res.outputs@ == Map::<u64, Output>::empty(),
            res.successes@ == Map::<u64, bool>::empty(),
            res.kotlinc_fingerprint == 0,
    {
        CacheData { kotlinc_fingerprint: 0, outputs: HashMap::new(), successes: HashMap::new() }
    }

    /// Whether an output is recorded under `key`.
    pub fn contains_key(&self, key: &u64) -> (res: bool)
        ensures
            res == self.outputs@.contains_key(*key),
    {
        self.outputs.contains_key(key)
    }

    /// The output recorded under `key`, which must be present.
    pub fn get(&self, key: &u64) -> (res: &Output)
        requires
            self.outputs@.contains_key(*key),
        ensures
            *res == self.outputs@[*key],
    {
        self.outputs.get(key).unwrap()
    }

    /// Records `value` under `key`, replacing what was there.
    pub fn insert(&mut self, key: u64, value: Output)
        ensures
            final(self).outputs@ == old(self).outputs@.insert(key, value),
            final(self).successes@ == old(self).successes@,
            final(self).kotlinc_fingerprint == old(self).kotlinc_fingerprint,
    {
        self.outputs.insert(key, value);
    }
}

impl Default for CacheData {
    fn default() -> (res: CacheData)
        ensures
            res.outputs@ == Map::<u64, Output>::empty(),
            res.successes@ == Map::<u64, bool>::empty(),
            res.kotlinc_fingerprint == 0,
    {
        CacheData::empty()
    }
}

/// The build cache: where it is stored, whether it changed since it was
/// loaded (and must be written back), and its records.
#[derive(Clone, Debug)]
pub struct Cache {
    pub location: String,
    pub dirty: bool,
    pub data: CacheData,
}

/// The outcome of caching one item.
#[derive(Debug)]
pub struct CacheResult {
    pub conclusion: PartialConclusion,
    pub stdout: Option<String>,
    pub stderr: Option<String>,
    pub status: i32,
}

/// Something whose items can be cached: a fingerprint for each item, and a
/// way to cache it, which reports what happened or why it could not.
pub trait Cacheable {
    type Item;

    fn cache(&mut self, cache: &mut Cache, item: Self::Item) -> Result<CacheResult, String>;

    fn fingerprint(&self, item: Self::Item) -> u64;
}

impl Cache {
    /// The cache stored at `location`, holding what was read from it, or
    /// nothing when it could not be read. A loaded cache is not dirty.
    pub fn load(location: String, read: Option<CacheData>) -> (res: Cache)
        ensures
            res.location == location,
            !res.dirty,
            match read {
                Some(d) => res.data == d,
                None => res.data.outputs@ == Map::<u64, Output>::empty()
                    && res.data.successes@ == Map::<u64, bool>::empty()
                    && res.data.kotlinc_fingerprint == 0,
            },
    {
        let data = match read {
            Some(d) => d,
            None => CacheData::empty(),
        };
        Cache { location, dirty: false, data }
    }

    /// Records `output` under `key`; the cache becomes dirty.
    pub fn insert(&mut self, key: u64, output: Output)
        ensures
            insert_step(*old(self), key, output, *final(self)),
    {
        self.data.insert(key, output);
        self.dirty = true;
    }

    /// The output recorded under `key`, which must be present.
    pub fn get(&self, key: &u64) -> (res: &Output)
        requires
            self.data.outputs@.contains_key(*key),
        ensures
            *res == self.data.outputs@[*key],
    {
        self.data.get(key)
    }

    /// Whether an output is recorded under `key`.
    pub fn contains_key(&self, key: &u64) -> (res: bool)
        ensures
            res == self.data.outputs@.contains_key(*key),
    {
        self.data.contains_key(key)
    }

    /// Caches a source file whose fingerprint is `key`: `CACHED` when it is
    /// already recorded (nothing changes), otherwise it is recorded as a
    /// successful action named after the file, the cache becomes dirty, and
    /// the result is `SUCCESS`.
    pub fn cache_file(&mut self, key: u64, file: &str) -> (res: PartialConclusion)
        ensures
            cache_file_step(*old(self), key, file@, *final(self), res),
    {
        if self.data.contains_key(&key) {
            PartialConclusion::CACHED
        } else {
            let mut output = Output::empty();
            output.set_action(crate::text::owned(file));
            output.set_success();
            self.data.insert(key, output);
            self.dirty = true;
            PartialConclusion::SUCCESS
        }
    }

    /// Caches a package stored at `location` whose fingerprint is `key`:
    /// `CACHED` when it is already recorded, otherwise it is recorded with
    /// the location as its action and `classpath` as its output, and the
    /// result is `SUCCESS`. Recording a package leaves the dirty flag as it
    /// was.
    pub fn cache_dependency(&mut self, key: u64, location: &str, classpath: String) -> (res:
        PartialConclusion)
        ensures
            old(self).data.outputs@.contains_key(key) ==> res == PartialConclusion::CACHED
                && *final(self) == *old(self),
            !old(self).data.outputs@.contains_key(key) ==> {
                &&& res == PartialConclusion::SUCCESS
                &&& final(self).dirty == old(self).dirty
                &&& final(self).location == old(self).location
                &&& final(self).data.outputs@.dom() == old(self).data.outputs@.dom().insert(key)
                &&& forall|k: u64|
                    k != key && old(self).data.outputs@.contains_key(k)
                        ==> #[trigger] final(self).data.outputs@[k] == old(self).data.outputs@[k]
                &&& final(self).data.outputs@[key].action@ == location@
                &&& final(self).data.outputs@[key].stdout == classpath
                &&& !final(self).data.outputs@[key].success
            },
    {
        if self.data.contains_key(&key) {
            PartialConclusion::CACHED
        } else {
            let mut output = Output::empty();
            output.set_action(crate::text::owned(location));
            output.set_stdout(classpath);
            self.data.insert(key, output);
            PartialConclusion::SUCCESS
        }
    }

    /// Marks the cache as not needing to be written back.
    pub fn invalidate(&mut self)
        ensures
            *final(self) == (Cache { dirty: false, ..*old(self) }),
    {
        self.dirty = false;
    }
}

/// The conclusion an outcome reports: `FAILED` when something non-empty was
/// written to standard error, the recorded conclusion otherwise.
pub open spec fn reported_conclusion(r: CacheResult) -> PartialConclusion {
    match r.stderr {
        Some(e) => if e@.len() > 0 {
            PartialConclusion::FAILED
        } else {
            r.conclusion
        },
        None => r.conclusion,
    }
}

impl CacheResult {
    /// The outcome of caching as the outcome of a command named `temp`:
    /// `FAILED` when something non-empty was written to standard error,
    /// otherwise the recorded conclusion; the status and both streams (empty
    /// where absent) carry over.
    pub fn into_output(self) -> (res: BuildkOutput)
        ensures
            res.name@ == "temp"@,
            res.conclusion == Some(reported_conclusion(self)),
            res.status == self.status,
            res.stdout matches Some(o) && o@ == match self.stdout {
                Some(s) => s@,
                None => Seq::<char>::empty(),
            },
            res.stderr matches Some(e) && e@ == match self.stderr {
                Some(s) => s@,
                None => Seq::<char>::empty(),
            },
    {
        let conclusion = match &self.stderr {
            Some(err) => {
                if !err.as_str().is_empty() {
                    PartialConclusion::FAILED
                } else {
                    self.conclusion
                }
            },
            None => self.conclusion,
        };
        let mut out = BuildkOutput::new("temp");
        out.conclude(conclusion);
        out.set_status(self.status);
        out.set_stdout(match self.stdout {
            Some(s) => s,
            None => String::new(),
        });
        out.set_stderr(match self.stderr {
            Some(s) => s,
            None => String::new(),
        });
        out
    }
}

} // verus!
