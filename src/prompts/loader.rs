use vstd::prelude::*;
use vstd::string::*;

verus! {

/// `part` appended to the path `base`, with one separator between them.
pub open spec fn path_join(base: Seq<char>, part: Seq<char>) -> Seq<char> {
    if base.len() == 0 || base.last() == '/' {
        base + part
    } else {
        base + "/"@ + part
    }
}

/// Appends the relative path `part` to `base`, with one separator between them.
pub fn join_path(base: &str, part: &str) -> (r: String)
    ensures
        r@ == path_join(base@, part@),
{
    let n = base.unicode_len();
    let mut r = base.to_owned();
    if n > 0 && base.get_char(n - 1) != '/' {
        r.append("/");
    }
    r.append(part);
    r
}

/// Where the prompt templates of a data directory live.
pub struct PromptLoader {
    pub prompts_dir: String,
}

impl PromptLoader {
    /// Templates under `prompts` in the data directory.
    pub fn new(data_path: &str) -> (r: PromptLoader)
        ensures
            r.prompts_dir@ == path_join(data_path@, "prompts"@),
    {
        PromptLoader { prompts_dir: join_path(data_path, "prompts") }
    }

    /// Where the characters' base instructions may be, in order of preference; the
    /// built-in default applies when none exists.
    pub fn npc_base_paths(&self) -> (r: Vec<String>)
        ensures
            r@.len() == 2,
            r@[0]@ == path_join(path_join(self.prompts_dir@, "core"@), "npc_base.md"@),
            r@[1]@ == path_join(self.prompts_dir@, "npc_base.md"@),
    {
        let core = join_path(self.prompts_dir.as_str(), "core");
        let mut r: Vec<String> = Vec::new();
        r.push(join_path(core.as_str(), "npc_base.md"));
        r.push(join_path(self.prompts_dir.as_str(), "npc_base.md"));
        r
    }

    /// Where the arbiter's base instructions may be, in order of preference; the
    /// built-in default applies when none exists.
    pub fn gm_base_paths(&self) -> (r: Vec<String>)
        ensures
            r@.len() == 2,
            r@[0]@ == path_join(path_join(self.prompts_dir@, "gm"@), "gm_base.md"@),
            r@[1]@ == path_join(self.prompts_dir@, "gm_base.md"@),
    {
        let gm = join_path(self.prompts_dir.as_str(), "gm");
        let mut r: Vec<String> = Vec::new();
        r.push(join_path(gm.as_str(), "gm_base.md"));
        r.push(join_path(self.prompts_dir.as_str(), "gm_base.md"));
        r
    }

    /// Where the template called `name` is.
    pub fn custom_path(&self, name: &str) -> (r: String)
        ensures
            r@ == path_join(self.prompts_dir@, name@ + ".md"@),
    {
        let mut file = name.to_owned();
        file.append(".md");
        join_path(self.prompts_dir.as_str(), file.as_str())
    }
}

} // verus!
