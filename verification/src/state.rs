//! The jail registry: named records and the operations that mutate them.
//!
//! The registry invariant is that jail names are unique. Persistence of the
//! registry is a JSON document handled by the codec module; probing whether
//! a recorded process id is still alive goes through the trusted boundary.

use vstd::prelude::*;

use crate::error::Error;
use crate::strutil::str_eq;
use crate::sys;

verus! {

/// The mathematical value of a jail record.
#[verifier::ext_equal]
pub ghost struct JailInfoV {
    pub id: Seq<char>,
    pub name: Seq<char>,
    pub repo_path: Seq<char>,
    pub worktree_path: Seq<char>,
    pub branch_name: Seq<char>,
    pub created_at: u64,
    pub pid: Option<u32>,
    pub entrypoint: Option<Seq<Seq<char>>>,
}

/// One named jail: the worktree it owns, the branch backing it, and the
/// liveness bookkeeping. `created_at` is seconds since the Unix epoch, UTC.
#[derive(Debug)]
pub struct JailInfo {
    pub id: String,
    pub name: String,
    pub repo_path: String,
    pub worktree_path: String,
    pub branch_name: String,
    pub created_at: u64,
    pub pid: Option<u32>,
    pub entrypoint: Option<Vec<String>>,
}

impl View for JailInfo {
    type V = JailInfoV;

    open spec fn view(&self) -> JailInfoV {
        JailInfoV {
            id: self.id@,
            name: self.name@,
            repo_path: self.repo_path@,
            worktree_path: self.worktree_path@,
            branch_name: self.branch_name@,
            created_at: self.created_at,
            pid: self.pid,
            entrypoint: match self.entrypoint {
                Option::None => Option::None,
                Option::Some(ref v) => Option::Some(v.deep_view()),
            },
        }
    }
}

/// A copy of each string in `v`.
pub fn clone_strings(v: &Vec<String>) -> (r: Vec<String>)
    ensures
        r.deep_view() == v.deep_view(),
{
    let mut out: Vec<String> = Vec::new();
    let mut i: usize = 0;
    while i < v.len()
        invariant
            i <= v@.len(),
            out@.len() == i,
            forall|j: int| 0 <= j < i ==> #[trigger] out@[j]@ == v@[j]@,
        decreases v@.len() - i,
    {
        let c = v[i].clone();
        proof {
            assert(c@ == v@[i as int]@);
        }
        out.push(c);
        i = i + 1;
    }
    proof {
        assert forall|j: int| 0 <= j < v@.len() implies out.deep_view()[j] == v.deep_view()[j] by {
            assert(out@[j]@ == v@[j]@);
        }
        assert(out.deep_view() =~= v.deep_view());
    }
    out
}

impl Clone for JailInfo {
    fn clone(&self) -> (r: Self)
        ensures
            r@ == self@,
    {
        let r = JailInfo {
            id: self.id.clone(),
            name: self.name.clone(),
            repo_path: self.repo_path.clone(),
            worktree_path: self.worktree_path.clone(),
            branch_name: self.branch_name.clone(),
            created_at: self.created_at,
            pid: self.pid,
            entrypoint: match &self.entrypoint {
                None => None,
                Some(v) => Some(clone_strings(v)),
            },
        };
        proof {
            assert(r@ =~= self@);
        }
        r
    }
}

/// Whether some record in `s` carries the name `n`.
pub open spec fn has_name_v(s: Seq<JailInfoV>, n: Seq<char>) -> bool {
    exists|i: int| 0 <= i < s.len() && s[i].name == n
}

/// Names are unique across the sequence of records.
pub open spec fn wf_v(s: Seq<JailInfoV>) -> bool {
    forall|i: int, j: int| 0 <= i < j < s.len() ==> s[i].name != s[j].name
}

/// The registry: every known jail, in insertion order.
#[derive(Debug)]
pub struct State {
    pub jails: Vec<JailInfo>,
}

impl View for State {
    type V = Seq<JailInfoV>;

    open spec fn view(&self) -> Seq<JailInfoV> {
        self.jails@.map_values(|j: JailInfo| j@)
    }
}

impl State {
    /// The registry invariant: jail names are unique.
    pub open spec fn wf(&self) -> bool {
        wf_v(self@)
    }

    /// An empty registry.
    pub fn new() -> (r: State)
        ensures
            r@ == Seq::<JailInfoV>::empty(),
            r.wf(),
    {
        let r = State { jails: Vec::new() };
        proof {
            assert(r@ =~= Seq::<JailInfoV>::empty());
        }
        r
    }

    /// The position of the record named `name`, if any.
    fn find_index(&self, name: &str) -> (r: Option<usize>)
        ensures
            match r {
                Some(i) => i < self@.len() && self@[i as int].name == name@,
                None => !has_name_v(self@, name@),
            },
    {
        let mut i: usize = 0;
        while i < self.jails.len()
            invariant
                i <= self@.len(),
                self@.len() == self.jails@.len(),
                forall|j: int| 0 <= j < i ==> self@[j].name != name@,
            decreases self@.len() - i,
        {
            if str_eq(self.jails[i].name.as_str(), name) {
                return Some(i);
            }
            i = i + 1;
        }
        None
    }

    /// Looks a jail up by name; absent names report `JailNotFound`.
    pub fn get_jail(&self, name: &str) -> (r: Result<&JailInfo, Error>)
        ensures
            r.is_ok() <==> has_name_v(self@, name@),
            r matches Ok(j) ==> exists|i: int|
                0 <= i < self@.len() && self@[i] == j@ && j@.name == name@,
            r matches Err(e) ==> e matches Error::JailNotFound(n) && n@ == name@,
    {
        match self.find_index(name) {
            Some(i) => Ok(&self.jails[i]),
            None => Err(Error::JailNotFound(name.to_owned())),
        }
    }

    /// Registers a new jail; a second jail of the same name is a conflict
    /// and leaves the registry unchanged.
    pub fn add_jail(&mut self, info: JailInfo) -> (r: Result<(), Error>)
        requires
            old(self).wf(),
        ensures
            final(self).wf(),
            r.is_ok() <==> !has_name_v(old(self)@, info@.name),
            r.is_ok() ==> final(self)@ == old(self)@.push(info@),
            r matches Err(e) ==> final(self)@ == old(self)@ && (e matches Error::JailExists(n)
                && n@ == info@.name),
    {
        match self.find_index(info.name.as_str()) {
            Some(_) => Err(Error::JailExists(info.name.clone())),
            None => {
                self.jails.push(info);
                proof {
                    assert(final(self)@ =~= old(self)@.push(info@));
                }
                Ok(())
            },
        }
    }

    /// Removes the jail named `name` and hands its record back; absent
    /// names report `JailNotFound` and leave the registry unchanged.
    pub fn remove_jail(&mut self, name: &str) -> (r: Result<JailInfo, Error>)
        requires
            old(self).wf(),
        ensures
            final(self).wf(),
            r.is_ok() <==> has_name_v(old(self)@, name@),
            r matches Ok(j) ==> j@.name == name@ && exists|i: int|
                0 <= i < old(self)@.len() && old(self)@[i] == j@
                && final(self)@ == old(self)@.remove(i),
            r matches Err(e) ==> final(self)@ == old(self)@ && (e matches Error::JailNotFound(n)
                && n@ == name@),
    {
        match self.find_index(name) {
            Some(i) => {
                let j = self.jails.remove(i);
                proof {
                    assert(final(self)@ =~= old(self)@.remove(i as int));
                    assert(forall|a: int, b: int|
                        0 <= a < b < final(self)@.len()
                            ==> final(self)@[a].name != final(self)@[b].name);
                }
                Ok(j)
            },
            None => Err(Error::JailNotFound(name.to_owned())),
        }
    }

    /// Records (or clears) the process id of the jail named `name`.
    pub fn set_pid(&mut self, name: &str, pid: Option<u32>) -> (r: Result<(), Error>)
        requires
            old(self).wf(),
        ensures
            final(self).wf(),
            r.is_ok() <==> has_name_v(old(self)@, name@),
            r.is_ok() ==> exists|i: int|
                0 <= i < old(self)@.len() && old(self)@[i].name == name@
                && final(self)@ == old(self)@.update(i, JailInfoV { pid: pid, ..old(self)@[i] }),
            r matches Err(e) ==> final(self)@ == old(self)@ && (e matches Error::JailNotFound(n)
                && n@ == name@),
    {
        match self.find_index(name) {
            Some(i) => {
                let ghost prev = self@;
                self.jails[i].pid = pid;
                proof {
                    assert(final(self)@ =~= prev.update(i as int, JailInfoV { pid: pid, ..prev[i as int] }));
                    assert forall|a: int, b: int|
                        0 <= a < b < final(self)@.len() implies final(self)@[a].name
                        != final(self)@[b].name by {
                        assert(final(self)@[a].name == prev[a].name);
                        assert(final(self)@[b].name == prev[b].name);
                    }
                }
                Ok(())
            },
            None => Err(Error::JailNotFound(name.to_owned())),
        }
    }

    /// Whether a process with this id is alive, probed with signal zero.
    /// An id beyond the kernel's positive pid range names no process and
    /// is never probed.
    pub fn is_pid_alive(pid: u32) -> bool {
        if pid > 0x7fff_ffff {
            return false;
        }
        sys::pid_probe(pid)
    }

    /// Every jail, ordered by creation time ascending.
    pub fn list_jails(&self) -> (r: Vec<JailInfo>)
        ensures
            r@.map_values(|j: JailInfo| j@).to_multiset() == self@.to_multiset(),
            forall|a: int, b: int|
                0 <= a < b < r@.len() ==> r@[a].created_at <= r@[b].created_at,
    {
        let mut src: Vec<JailInfo> = Vec::new();
        let mut i: usize = 0;
        while i < self.jails.len()
            invariant
                i <= self.jails@.len(),
                src@.len() == i,
                forall|j: int| 0 <= j < i ==> #[trigger] src@[j]@ == self.jails@[j]@,
            decreases self.jails@.len() - i,
        {
            let c = self.jails[i].clone();
            src.push(c);
            i = i + 1;
        }
        proof {
            assert forall|k: int|
                0 <= k < self.jails@.len() implies src@.map_values(|j: JailInfo| j@)[k]
                == self@[k] by {
                assert(src@[k]@ == self.jails@[k]@);
            }
            assert(src@.map_values(|j: JailInfo| j@) =~= self@);
        }
        let mut out: Vec<JailInfo> = Vec::new();
        proof {
            broadcast use vstd::seq_lib::group_to_multiset_ensures;
            broadcast use vstd::multiset::group_multiset_axioms;

            assert(out@.map_values(|j: JailInfo| j@) =~= Seq::<JailInfoV>::empty());
            assert(out@.map_values(|j: JailInfo| j@).to_multiset().add(
                src@.map_values(|j: JailInfo| j@).to_multiset(),
            ) =~= self@.to_multiset());
        }
        while src.len() > 0
            invariant
                out@.map_values(|j: JailInfo| j@).to_multiset().add(
                    src@.map_values(|j: JailInfo| j@).to_multiset(),
                ) == self@.to_multiset(),
                forall|a: int, b: int|
                    0 <= a < b < out@.len() ==> out@[a].created_at <= out@[b].created_at,
                forall|a: int, b: int|
                    0 <= a < out@.len() && 0 <= b < src@.len() ==> out@[a].created_at
                        <= src@[b].created_at,
            decreases src@.len(),
        {
            let mut m: usize = 0;
            let mut k: usize = 1;
            while k < src.len()
                invariant
                    m < k <= src@.len(),
                    src@.len() > 0,
                    forall|j: int| 0 <= j < k ==> src@[m as int].created_at <= src@[j].created_at,
                decreases src@.len() - k,
            {
                if src[k].created_at < src[m].created_at {
                    m = k;
                }
                k = k + 1;
            }
            let ghost src_pre = src@.map_values(|j: JailInfo| j@);
            let ghost out_pre = out@.map_values(|j: JailInfo| j@);
            let x = src.remove(m);
            out.push(x);
            proof {
                broadcast use vstd::seq_lib::group_to_multiset_ensures;

                assert(src@.map_values(|j: JailInfo| j@) =~= src_pre.remove(m as int));
                assert(out@.map_values(|j: JailInfo| j@) =~= out_pre.push(src_pre[m as int]));
                assert(out@.map_values(|j: JailInfo| j@).to_multiset().add(
                    src@.map_values(|j: JailInfo| j@).to_multiset(),
                ) =~= self@.to_multiset());
            }
        }
        proof {
            broadcast use vstd::seq_lib::group_to_multiset_ensures;
            broadcast use vstd::multiset::group_multiset_axioms;

            assert(src@.map_values(|j: JailInfo| j@) =~= Seq::<JailInfoV>::empty());
            assert(out@.map_values(|j: JailInfo| j@).to_multiset() =~= self@.to_multiset());
        }
        out
    }
}

/// Creating a jail and then destroying it restores the registry: however a
/// destroy identifies the record carrying the fresh name, removing it from
/// the extended registry yields exactly the registry from before the create.
pub proof fn lemma_create_destroy_restores(s: Seq<JailInfoV>, info: JailInfoV, i: int)
    requires
        wf_v(s),
        !has_name_v(s, info.name),
        0 <= i < s.push(info).len(),
        s.push(info)[i].name == info.name,
    ensures
        i == s.len(),
        s.push(info).remove(i) == s,
{
    if i < s.len() {
        assert(s[i].name == info.name);
        assert(has_name_v(s, info.name));
    }
    assert(s.push(info).remove(s.len() as int) =~= s);
}

} // verus!
