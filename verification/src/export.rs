//! Report rendering for exports. The engine builds the report text and
//! the per-entry records; the host writes files and supplies timestamps,
//! and serialises through its own formats where one is wanted.
use vstd::prelude::*;
use vstd::string::StringExecFns;
use crate::models::{source_label, StartupEntry};
use crate::text::dec_digits;
use crate::text::u64_to_string;

verus! {

/// The head of the markdown report, before the per-entry table rows.
pub open spec fn markdown_header(total: nat, generated: Seq<char>) -> Seq<char> {
    "# DeepBoot Scan Report\n\nGenerated: "@ + generated + "\n\nTotal Entries: "@ + dec_digits(
        total,
    ) + "\n\n## Startup Entries\n\n| Name | Command | Source | Enabled | Description |\n|------|---------|--------|---------|-------------|\n"@
}

/// One markdown table row per entry, in collection order.
pub open spec fn markdown_rows(entries: Seq<StartupEntry>) -> Seq<char>
    decreases entries.len(),
{
    if entries.len() == 0 {
        Seq::empty()
    } else {
        markdown_rows(entries.drop_last()) + "| "@ + entries.last().name@ + " | "@
            + entries.last().command@ + " | "@ + source_label(entries.last().source) + " | "@ + (
        if entries.last().enabled {
            "Yes"@
        } else {
            "No"@
        }) + " | "@ + (match entries.last().description {
            Some(d) => d@,
            None => Seq::<char>::empty(),
        }) + " |\n"@
    }
}

/// Renders reports and export records over an entry collection.
pub struct Exporter;

impl Exporter {
    /// The markdown report of a collection, stamped with the host's
    /// clock: a head with the total, then one table row per entry.
    #[verifier::rlimit(60)]
    pub fn markdown_content(entries: &Vec<StartupEntry>, generated: &str) -> (r: String)
        ensures
            r@ == markdown_header(entries@.len() as nat, generated@) + markdown_rows(entries@),
    {
        let mut s = String::new();
        s.append("# DeepBoot Scan Report\n\nGenerated: ");
        s.append(generated);
        s.append("\n\nTotal Entries: ");
        let tot = u64_to_string(entries.len() as u64);
        s.append(tot.as_str());
        s.append("\n\n## Startup Entries\n\n| Name | Command | Source | Enabled | Description |\n|------|---------|--------|---------|-------------|\n");
        let ghost header = s@;
        let mut i: usize = 0;
        while i < entries.len()
            invariant
                i <= entries.len(),
                header == markdown_header(entries@.len() as nat, generated@),
                s@ == header + markdown_rows(entries@.take(i as int)),
            decreases entries.len() - i,
        {
            let ghost pre = entries@.take(i as int);
            let ghost post = entries@.take(i + 1);
            proof {
                assert(post.drop_last() =~= pre);
                assert(post.last() == entries@[i as int]);
            }
            s.append("| ");
            s.append(entries[i].name.as_str());
            s.append(" | ");
            s.append(entries[i].command.as_str());
            s.append(" | ");
            let lbl = entries[i].source.label();
            s.append(lbl.as_str());
            s.append(" | ");
            if entries[i].enabled {
                s.append("Yes");
            } else {
                s.append("No");
            }
            s.append(" | ");
            if let Some(d) = &entries[i].description {
                s.append(d.as_str());
            }
            s.append(" |\n");
            i += 1;
        }
        proof {
            assert(entries@.take(entries@.len() as int) =~= entries@);
        }
        s
    }

    /// The five fields of one export record, in column order; the enabled
    /// flag is spelt `true` or `false`, and an absent description is the
    /// empty field.
    pub fn record_fields(entry: &StartupEntry) -> (r: Vec<String>)
        ensures
            r@.len() == 5,
            r@[0]@ == entry.name@,
            r@[1]@ == entry.command@,
            r@[2]@ == source_label(entry.source),
            r@[3]@ == (if entry.enabled {
                "true"@
            } else {
                "false"@
            }),
            r@[4]@ == (match entry.description {
                Some(d) => d@,
                None => Seq::<char>::empty(),
            }),
    {
        let mut fields: Vec<String> = Vec::new();
        fields.push(entry.name.clone());
        fields.push(entry.command.clone());
        fields.push(entry.source.label());
        if entry.enabled {
            fields.push(String::from_str("true"));
        } else {
            fields.push(String::from_str("false"));
        }
        match &entry.description {
            Some(d) => fields.push(d.clone()),
            None => fields.push(String::new()),
        }
        fields
    }
}

} // verus!
