//! The exam-profile table: which target formats each known profile allows
//! and the per-format byte ceilings it imposes.  The values are deployment
//! configuration consumed by the API layer, not by the conversion core.

use vstd::prelude::*;
use vstd::string::StringExecFns;
use crate::convert::str_eq;
use crate::types::ExamConfig;

verus! {

/// Whether a profile tag names one of the known exam profiles.
pub open spec fn known_exam(t: Seq<char>) -> bool {
    t == "neet"@ || t == "jee"@ || t == "upsc"@
}

/// Looks up the configuration of an exam profile.  The three known
/// profiles each fix a name, an ordered list of allowed formats, and a
/// byte ceiling per format; any other tag has no configuration.
pub fn exam_config_for(exam_type: &str) -> (r: Option<ExamConfig>)
    ensures
        r is Some <==> known_exam(exam_type@),
        exam_type@ == "neet"@ ==> (r matches Some(c) && c.name@ == "NEET"@ && c.formats@.len() == 2
            && c.formats@[0]@ == "PDF"@ && c.formats@[1]@ == "JPEG"@ && c.max_sizes@.len() == 2
            && c.max_sizes@[0].0@ == "PDF"@ && c.max_sizes@[0].1 == 2097152
            && c.max_sizes@[1].0@ == "JPEG"@ && c.max_sizes@[1].1 == 512000),
        exam_type@ == "jee"@ ==> (r matches Some(c) && c.name@ == "JEE"@ && c.formats@.len() == 3
            && c.formats@[0]@ == "PDF"@ && c.formats@[1]@ == "JPEG"@ && c.formats@[2]@ == "PNG"@
            && c.max_sizes@.len() == 3 && c.max_sizes@[0].0@ == "PDF"@ && c.max_sizes@[0].1
            == 1048576 && c.max_sizes@[1].0@ == "JPEG"@ && c.max_sizes@[1].1 == 307200
            && c.max_sizes@[2].0@ == "PNG"@ && c.max_sizes@[2].1 == 307200),
        exam_type@ == "upsc"@ ==> (r matches Some(c) && c.name@ == "UPSC"@ && c.formats@.len() == 3
            && c.formats@[0]@ == "PDF"@ && c.formats@[1]@ == "JPEG"@ && c.formats@[2]@ == "PNG"@
            && c.max_sizes@.len() == 3 && c.max_sizes@[0].0@ == "PDF"@ && c.max_sizes@[0].1
            == 3145728 && c.max_sizes@[1].0@ == "JPEG"@ && c.max_sizes@[1].1 == 1048576
            && c.max_sizes@[2].0@ == "PNG"@ && c.max_sizes@[2].1 == 1048576),
{
    proof {
        reveal_strlit("neet");
        reveal_strlit("jee");
        reveal_strlit("upsc");
        assert("neet"@.len() == 4 && "jee"@.len() == 3 && "upsc"@.len() == 4);
        assert("neet"@[0] == 'n' && "upsc"@[0] == 'u');
        assert("neet"@ != "jee"@ && "neet"@ != "upsc"@ && "jee"@ != "upsc"@);
    }
    if str_eq(exam_type, "neet") {
        let mut formats: Vec<String> = Vec::new();
        formats.push(String::from_str("PDF"));
        formats.push(String::from_str("JPEG"));
        let mut max_sizes: Vec<(String, u64)> = Vec::new();
        max_sizes.push((String::from_str("PDF"), 2097152));
        max_sizes.push((String::from_str("JPEG"), 512000));
        Some(ExamConfig { name: String::from_str("NEET"), formats, max_sizes })
    } else if str_eq(exam_type, "jee") {
        let mut formats: Vec<String> = Vec::new();
        formats.push(String::from_str("PDF"));
        formats.push(String::from_str("JPEG"));
        formats.push(String::from_str("PNG"));
        let mut max_sizes: Vec<(String, u64)> = Vec::new();
        max_sizes.push((String::from_str("PDF"), 1048576));
        max_sizes.push((String::from_str("JPEG"), 307200));
        max_sizes.push((String::from_str("PNG"), 307200));
        Some(ExamConfig { name: String::from_str("JEE"), formats, max_sizes })
    } else if str_eq(exam_type, "upsc") {
        let mut formats: Vec<String> = Vec::new();
        formats.push(String::from_str("PDF"));
        formats.push(String::from_str("JPEG"));
        formats.push(String::from_str("PNG"));
        let mut max_sizes: Vec<(String, u64)> = Vec::new();
        max_sizes.push((String::from_str("PDF"), 3145728));
        max_sizes.push((String::from_str("JPEG"), 1048576));
        max_sizes.push((String::from_str("PNG"), 1048576));
        Some(ExamConfig { name: String::from_str("UPSC"), formats, max_sizes })
    } else {
        None
    }
}

} // verus!
