//! The name of the program, drawn in characters.

use vstd::prelude::*;

verus! {

pub const LOGO: &'static str = "__  __  ___  _   _ _______   ______    _    _     _\n|  \\/  |/ _ \\| \\ | | ____\\ \\ / / __ )  / \\  | |   | |\n| |\\/| | | | |  \\| |  _|  \\ V /|  _ \\ / _ \\ | |   | |\n| |  | | |_| | |\\  | |___  | | | |_) / ___ \\| |___| |___\n|_|  |_|\\___/|_| \\_|_____| |_| |____/_/   \\_\\_____|_____|";

} // verus!
