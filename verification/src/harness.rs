//! A scratch project description for the build driver: a list of named
//! files plus the two generator flags. The driver that writes these files
//! to disk and runs the toolchain lives outside the library.

use vstd::prelude::*;
use vstd::string::*;

verus! {

/// Files of a scratch project together with the generator flags.
pub struct Project {
    pub files: Vec<(String, String)>,
    pub debug: bool,
    pub uglify: bool,
}

impl Project {
    /// A fresh project: no files yet, debug assertions on, no mangling.
    pub fn new() -> (r: Project)
        ensures
            r.files@ == Seq::<(String, String)>::empty(),
            r.debug == true,
            r.uglify == false,
    {
        Project { files: Vec::new(), debug: true, uglify: false }
    }

    /// Append one named file to the project.
    pub fn file(&mut self, name: &str, contents: &str)
        ensures
            final(self).files@.len() == old(self).files@.len() + 1,
            final(self).files@.subrange(0, old(self).files@.len() as int) == old(self).files@,
            final(self).files@.last().0@ == name@,
            final(self).files@.last().1@ == contents@,
            final(self).debug == old(self).debug,
            final(self).uglify == old(self).uglify,
    {
        self.files.push((name.to_owned(), contents.to_owned()));
        proof {
            assert(final(self).files@.subrange(0, old(self).files@.len() as int)
                =~= old(self).files@);
        }
    }

    /// Set whether the generator emits debug assertions and the
    /// construction gate.
    pub fn debug(&mut self, debug: bool)
        ensures
            final(self).debug == debug,
            final(self).files@ == old(self).files@,
            final(self).uglify == old(self).uglify,
    {
        self.debug = debug;
    }

    /// Set whether wasm symbol names are mangled before glue generation.
    pub fn uglify(&mut self, uglify: bool)
        ensures
            final(self).uglify == uglify,
            final(self).files@ == old(self).files@,
            final(self).debug == old(self).debug,
    {
        self.uglify = uglify;
    }
}

} // verus!
