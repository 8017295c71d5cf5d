//! Entries of the user database.

use vstd::prelude::*;

verus! {

/// One entry of the user database.
#[derive(Debug)]
pub struct Passwd {
    pub name: String,
    pub passwd: Option<String>,
    pub uid: u32,
    pub gid: u32,
    pub gecos: Option<String>,
    pub dir: String,
    pub shell: String,
}

impl Clone for Passwd {
    fn clone(&self) -> (r: Self)
        ensures
            r == *self,
    {
        Passwd {
            name: self.name.clone(),
            passwd: self.passwd.clone(),
            uid: self.uid,
            gid: self.gid,
            gecos: self.gecos.clone(),
            dir: self.dir.clone(),
            shell: self.shell.clone(),
        }
    }
}

} // verus!
