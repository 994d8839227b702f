//! An invocable unit: one resolved executable and the arguments accumulated
//! for it. Configuration is the only mutation; execution binds fresh child
//! process state per call and lives with the caller that owns the process
//! boundary.

use vstd::prelude::*;

verus! {

/// A resolved executable plus its configured argument list.
#[derive(Debug)]
pub struct Bin {
    name: String,
    path: String,
    args: Vec<String>,
}

impl Bin {
    /// The executable's name, as it was looked up.
    pub closed spec fn spec_name(&self) -> Seq<char> {
        self.name@
    }

    /// The absolute filesystem location of the resolved binary.
    pub closed spec fn spec_path(&self) -> Seq<char> {
        self.path@
    }

    /// The accumulated arguments, in the order they were appended.
    pub closed spec fn spec_args(&self) -> Seq<Seq<char>> {
        self.args.deep_view()
    }

    /// A fresh invocable: the given name and location, no arguments yet.
    pub fn new(name: &str, path: &str) -> (r: Self)
        ensures
            r.spec_name() == name@,
            r.spec_path() == path@,
            r.spec_args() == Seq::<Seq<char>>::empty(),
    {
        let r = Bin { name: name.to_owned(), path: path.to_owned(), args: Vec::new() };
        proof {
            assert(r.args.deep_view() =~= Seq::<Seq<char>>::empty());
        }
        r
    }

    /// Appends one argument; name and location stay as they are.
    pub fn arg(&mut self, arg: &str)
        ensures
            final(self).spec_name() == old(self).spec_name(),
            final(self).spec_path() == old(self).spec_path(),
            final(self).spec_args() == old(self).spec_args().push(arg@),
    {
        let ghost before = self.args.deep_view();
        self.args.push(arg.to_owned());
        proof {
            assert(self.args.deep_view() =~= before.push(arg@));
        }
    }

    /// Appends each given argument in order; appending none leaves the
    /// invocable exactly as configured, still a valid bare invocation.
    pub fn args(&mut self, args: &Vec<String>)
        ensures
            final(self).spec_name() == old(self).spec_name(),
            final(self).spec_path() == old(self).spec_path(),
            final(self).spec_args() == old(self).spec_args() + args.deep_view(),
            args@.len() == 0 ==> final(self).spec_args() == old(self).spec_args(),
    {
        let ghost before = self.args.deep_view();
        let mut i: usize = 0;
        while i < args.len()
            invariant
                i <= args.len(),
                self.name == old(self).name,
                self.path == old(self).path,
                self.args.deep_view() == before + args.deep_view().subrange(0, i as int),
            decreases args.len() - i,
        {
            let ghost mid = self.args.deep_view();
            self.args.push(args[i].clone());
            proof {
                assert(self.args.deep_view() =~= mid.push(args.deep_view()[i as int]));
                assert(mid.push(args.deep_view()[i as int]) =~= before + args.deep_view().subrange(
                    0,
                    i + 1,
                ));
            }
            i = i + 1;
        }
        proof {
            assert(args.deep_view().subrange(0, args@.len() as int) =~= args.deep_view());
            if args@.len() == 0 {
                assert(before + args.deep_view() =~= before);
            }
        }
    }

    /// The executable's name.
    pub fn name(&self) -> (r: &String)
        ensures
            r@ == self.spec_name(),
    {
        &self.name
    }

    /// The resolved location to spawn.
    pub fn location(&self) -> (r: &String)
        ensures
            r@ == self.spec_path(),
    {
        &self.path
    }

    /// The configured arguments, in order.
    pub fn arg_list(&self) -> (r: &Vec<String>)
        ensures
            r.deep_view() == self.spec_args(),
    {
        &self.args
    }
}

} // verus!
