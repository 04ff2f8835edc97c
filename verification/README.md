# ai2assistant

The verified core of a desktop assistant that files text snippets, captured
from chat and office applications, under "matters" with their logs and todos.

- `src/` is the library, verified with Verus: the store of matters, logs,
  todos and settings (`store`, with laws in `store_laws`), the commands that
  change several tables at once (`commands`), the capture flow (`capture`),
  the local rule engine that routes snippets and extracts todos (`routing`,
  `todo_rules`, `ai_service`), the reading of a language model's answer
  (`llm`), the prompts of a summary request (`prompts`), fact summaries
  (`summary`), due-time normalisation (`timefmt`),
  chat-title recognition (`wechat`, with ASCII case in `ascii`), the compact dock window (`dock`),
  reminders (`reminders`), shortcuts (`shortcuts`), settings (`settings`) and
  the sample data (`seed`).
- `app/` is the process around it: the SQLite file, HTTP calls to the model,
  global shortcuts, start at login, the reminder loop, and the floating-point
  geometry of windows and pictures.
- `tests/` runs the library on concrete cases.

Moving a filed log back to the inbox, or on to another matter, is not
offered: the store defines no operation that takes a log out of its matter,
so the two commands that would rest on one are left out.
