//! Version and licence text.

use vstd::prelude::*;

verus! {

pub fn license() -> (r: String)
    ensures
        r@ == "\nSpifyRFB  Copyright (C) 2023  Atheesh Thirumalairajan\nThis program comes with ABSOLUTELY NO WARRANTY; for details type `show w'.\nThis is free software, and you are welcome to redistribute it\nunder certain conditions; type `show c' for details.\n"@,
{
    "\nSpifyRFB  Copyright (C) 2023  Atheesh Thirumalairajan\nThis program comes with ABSOLUTELY NO WARRANTY; for details type `show w'.\nThis is free software, and you are welcome to redistribute it\nunder certain conditions; type `show c' for details.\n".to_owned()
}

pub fn srv_version() -> (r: String)
    ensures
        r@ == "0.1.0"@,
{
    "0.1.0".to_owned()
}

} // verus!
