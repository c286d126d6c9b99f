use vstd::prelude::*;

verus! {

/// The editing mode the editor is in.
#[derive(Clone, Copy, PartialEq, Eq, Structural, Debug)]
pub enum Modes {
    Normal,
    Insert,
    Visual,
    Replace,
    Command,
}

/// The name of a mode as it is shown in the status bar.
pub open spec fn mode_name(mode: Modes) -> Seq<char> {
    match mode {
        Modes::Normal => seq!['N', 'O', 'R', 'M', 'A', 'L'],
        Modes::Insert => seq!['I', 'N', 'S', 'E', 'R', 'T'],
        Modes::Replace => seq!['R', 'E', 'P', 'L', 'A', 'C', 'E'],
        Modes::Visual => seq!['V', 'I', 'S', 'U', 'A', 'L'],
        Modes::Command => seq!['C', 'O', 'M', 'M', 'A', 'N', 'D'],
    }
}

impl Modes {
    /// The upper-case name of the mode.
    pub fn as_str(self) -> (res: &'static str)
        ensures
            res@ == mode_name(self),
    {
        match self {
            Modes::Normal => {
                proof {
                    reveal_strlit("NORMAL");
                }
                "NORMAL"
            },
            Modes::Insert => {
                proof {
                    reveal_strlit("INSERT");
                }
                "INSERT"
            },
            Modes::Replace => {
                proof {
                    reveal_strlit("REPLACE");
                }
                "REPLACE"
            },
            Modes::Visual => {
                proof {
                    reveal_strlit("VISUAL");
                }
                "VISUAL"
            },
            Modes::Command => {
                proof {
                    reveal_strlit("COMMAND");
                }
                "COMMAND"
            },
        }
    }
}

} // verus!
